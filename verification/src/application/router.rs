//! The route table: which endpoint a method and a path lead to.

use crate::domain::newrelic::metric::Metric;
use crate::text::same_text;
use vstd::prelude::*;

verus! {

/// The method of a request, as far as the routes tell methods apart.
#[derive(Debug, Clone, Copy, PartialEq, Eq, Structural)]
pub enum Method {
    Get,
    Post,
    Other,
}

/// Where a request leads.
#[derive(Debug, Clone, Copy, PartialEq, Eq, Structural)]
pub enum Route {
    /// The health endpoint.
    Health,
    /// The exposition of the recorded metrics.
    Metrics,
    /// The endpoint of an operational metric.
    Metric(Metric),
    /// No endpoint has this path.
    NotFound,
    /// The path has an endpoint, for another method.
    MethodNotAllowed,
}

/// The path of the endpoint of each metric.
pub open spec fn metric_path(metric: Metric) -> Seq<char> {
    match metric {
        Metric::CpuRequestedCore => "/v1/newrelic/cpu-requested-cores"@,
        Metric::CpuUsedCore => "/v1/newrelic/cpu-used-cores"@,
        Metric::TotalPods => "/v1/newrelic/pods-total"@,
        Metric::ThreadCount => "/v1/newrelic/thread-count"@,
        Metric::MemoryHeapUsed => "/v1/newrelic/memory-heap-used"@,
        Metric::Throughput => "/v1/newrelic/throughput"@,
        Metric::ResponseTimeAverage => "/v1/newrelic/response-time-average"@,
    }
}

/// The metric whose endpoint has this path.
pub open spec fn metric_at(path: Seq<char>) -> Option<Metric> {
    if path == metric_path(Metric::CpuRequestedCore) {
        Some(Metric::CpuRequestedCore)
    } else if path == metric_path(Metric::CpuUsedCore) {
        Some(Metric::CpuUsedCore)
    } else if path == metric_path(Metric::TotalPods) {
        Some(Metric::TotalPods)
    } else if path == metric_path(Metric::ThreadCount) {
        Some(Metric::ThreadCount)
    } else if path == metric_path(Metric::MemoryHeapUsed) {
        Some(Metric::MemoryHeapUsed)
    } else if path == metric_path(Metric::Throughput) {
        Some(Metric::Throughput)
    } else if path == metric_path(Metric::ResponseTimeAverage) {
        Some(Metric::ResponseTimeAverage)
    } else {
        None
    }
}

/// Where a method and a path lead. The health endpoint and the exposition
/// answer to GET, the metric endpoints to POST; the exposition exists only
/// where the metrics instrumentation is switched on.
pub open spec fn route_of(method: Method, path: Seq<char>, metrics: bool) -> Route {
    if path == "/health"@ {
        if method == Method::Get {
            Route::Health
        } else {
            Route::MethodNotAllowed
        }
    } else if path == "/metrics"@ {
        if !metrics {
            Route::NotFound
        } else if method == Method::Get {
            Route::Metrics
        } else {
            Route::MethodNotAllowed
        }
    } else {
        match metric_at(path) {
            Some(metric) => if method == Method::Post {
                Route::Metric(metric)
            } else {
                Route::MethodNotAllowed
            },
            None => Route::NotFound,
        }
    }
}

/// The path of the endpoint of a metric.
pub fn path_of(metric: Metric) -> (path: &'static str)
    ensures
        path@ == metric_path(metric),
{
    match metric {
        Metric::CpuRequestedCore => "/v1/newrelic/cpu-requested-cores",
        Metric::CpuUsedCore => "/v1/newrelic/cpu-used-cores",
        Metric::TotalPods => "/v1/newrelic/pods-total",
        Metric::ThreadCount => "/v1/newrelic/thread-count",
        Metric::MemoryHeapUsed => "/v1/newrelic/memory-heap-used",
        Metric::Throughput => "/v1/newrelic/throughput",
        Metric::ResponseTimeAverage => "/v1/newrelic/response-time-average",
    }
}

/// The metric whose endpoint has this path.
pub fn metric_of_path(path: &str) -> (metric: Option<Metric>)
    ensures
        metric == metric_at(path@),
{
    if same_text(path, path_of(Metric::CpuRequestedCore)) {
        Some(Metric::CpuRequestedCore)
    } else if same_text(path, path_of(Metric::CpuUsedCore)) {
        Some(Metric::CpuUsedCore)
    } else if same_text(path, path_of(Metric::TotalPods)) {
        Some(Metric::TotalPods)
    } else if same_text(path, path_of(Metric::ThreadCount)) {
        Some(Metric::ThreadCount)
    } else if same_text(path, path_of(Metric::MemoryHeapUsed)) {
        Some(Metric::MemoryHeapUsed)
    } else if same_text(path, path_of(Metric::Throughput)) {
        Some(Metric::Throughput)
    } else if same_text(path, path_of(Metric::ResponseTimeAverage)) {
        Some(Metric::ResponseTimeAverage)
    } else {
        None
    }
}

/// Where a request with this method and path leads.
pub fn route(method: Method, path: &str, metrics: bool) -> (found: Route)
    ensures
        found == route_of(method, path@, metrics),
{
    if same_text(path, "/health") {
        match method {
            Method::Get => Route::Health,
            _ => Route::MethodNotAllowed,
        }
    } else if same_text(path, "/metrics") {
        if !metrics {
            Route::NotFound
        } else {
            match method {
                Method::Get => Route::Metrics,
                _ => Route::MethodNotAllowed,
            }
        }
    } else {
        match metric_of_path(path) {
            Some(metric) => match method {
                Method::Post => Route::Metric(metric),
                _ => Route::MethodNotAllowed,
            },
            None => Route::NotFound,
        }
    }
}

/// Every metric has an endpoint of its own: a POST to the path of a metric
/// leads to that metric, whether the metrics instrumentation is on or off.
pub proof fn lemma_each_metric_has_its_route(metric: Metric, metrics: bool)
    ensures
        metric_at(metric_path(metric)) == Some(metric),
        route_of(Method::Post, metric_path(metric), metrics) == Route::Metric(metric),
{
    reveal_strlit("/health");
    reveal_strlit("/metrics");
    reveal_strlit("/v1/newrelic/cpu-requested-cores");
    reveal_strlit("/v1/newrelic/cpu-used-cores");
    reveal_strlit("/v1/newrelic/pods-total");
    reveal_strlit("/v1/newrelic/thread-count");
    reveal_strlit("/v1/newrelic/memory-heap-used");
    reveal_strlit("/v1/newrelic/throughput");
    reveal_strlit("/v1/newrelic/response-time-average");
    assert("/health"@.len() == 7);
    assert("/metrics"@.len() == 8);
    assert("/v1/newrelic/cpu-requested-cores"@.len() == 32);
    assert("/v1/newrelic/cpu-used-cores"@.len() == 27);
    assert("/v1/newrelic/pods-total"@.len() == 23);
    assert("/v1/newrelic/thread-count"@.len() == 25);
    assert("/v1/newrelic/memory-heap-used"@.len() == 29);
    assert("/v1/newrelic/throughput"@.len() == 23);
    assert("/v1/newrelic/response-time-average"@.len() == 34);
    assert("/v1/newrelic/pods-total"@[13] == 'p');
    assert("/v1/newrelic/throughput"@[13] == 't');
}

/// The health endpoint is there whatever else is: a GET of its path leads
/// to it, with the metrics instrumentation on or off. The exposition is
/// there only with the instrumentation on.
pub proof fn lemma_health_is_always_routed(metrics: bool)
    ensures
        route_of(Method::Get, "/health"@, metrics) == Route::Health,
        route_of(Method::Get, "/metrics"@, false) == Route::NotFound,
        route_of(Method::Get, "/metrics"@, true) == Route::Metrics,
{
    reveal_strlit("/health");
    reveal_strlit("/metrics");
    assert("/health"@.len() == 7);
    assert("/metrics"@.len() == 8);
}

} // verus!
