use enma::application::router::{metric_of_path, path_of, route, Method, Route};
use enma::domain::newrelic::Metric;
use enma::handler::health::health;

const ALL: [Metric; 7] = [
    Metric::CpuUsedCore,
    Metric::CpuRequestedCore,
    Metric::TotalPods,
    Metric::ResponseTimeAverage,
    Metric::Throughput,
    Metric::MemoryHeapUsed,
    Metric::ThreadCount,
];

#[test]
fn health_is_served_without_the_provider() {
    // nothing of the provider goes into the answer: there is nothing to be unreachable
    assert_eq!(route(Method::Get, "/health", false), Route::Health);
    assert_eq!(route(Method::Get, "/health", true), Route::Health);
    let body = health("1.2.3");
    assert_eq!(body.code, 200);
    assert_eq!(body.message, "Oeeeei, I'm healthy");
    assert_eq!(body.version, "1.2.3");
}

#[test]
fn metrics_route_is_missing_when_disabled() {
    assert_eq!(route(Method::Get, "/metrics", false), Route::NotFound);
    assert_eq!(route(Method::Post, "/metrics", false), Route::NotFound);
    assert_eq!(route(Method::Get, "/metrics", true), Route::Metrics);
    assert_eq!(route(Method::Post, "/metrics", true), Route::MethodNotAllowed);
}

#[test]
fn metric_endpoints_answer_to_post() {
    assert_eq!(
        route(Method::Post, "/v1/newrelic/cpu-requested-cores", false),
        Route::Metric(Metric::CpuRequestedCore)
    );
    assert_eq!(
        route(Method::Post, "/v1/newrelic/cpu-used-cores", false),
        Route::Metric(Metric::CpuUsedCore)
    );
    assert_eq!(route(Method::Post, "/v1/newrelic/pods-total", false), Route::Metric(Metric::TotalPods));
    assert_eq!(
        route(Method::Post, "/v1/newrelic/thread-count", false),
        Route::Metric(Metric::ThreadCount)
    );
    assert_eq!(
        route(Method::Post, "/v1/newrelic/memory-heap-used", false),
        Route::Metric(Metric::MemoryHeapUsed)
    );
    assert_eq!(
        route(Method::Post, "/v1/newrelic/throughput", false),
        Route::Metric(Metric::Throughput)
    );
    assert_eq!(
        route(Method::Post, "/v1/newrelic/response-time-average", false),
        Route::Metric(Metric::ResponseTimeAverage)
    );
}

#[test]
fn every_metric_has_a_path_of_its_own() {
    for metric in ALL {
        assert_eq!(metric_of_path(path_of(metric)), Some(metric));
        assert_eq!(route(Method::Post, path_of(metric), true), Route::Metric(metric));
        assert_eq!(route(Method::Get, path_of(metric), true), Route::MethodNotAllowed);
        assert_eq!(route(Method::Other, path_of(metric), true), Route::MethodNotAllowed);
    }
}

#[test]
fn other_paths_are_not_found() {
    assert_eq!(route(Method::Get, "/", true), Route::NotFound);
    assert_eq!(route(Method::Get, "/health/", true), Route::NotFound);
    assert_eq!(route(Method::Post, "/v1/newrelic", true), Route::NotFound);
    assert_eq!(route(Method::Post, "/v1/newrelic/pods-total/", true), Route::NotFound);
    assert_eq!(route(Method::Post, "/newrelic/v1/throughput", true), Route::NotFound);
    assert_eq!(metric_of_path("/health"), None);
}

#[test]
fn health_answers_to_get_only() {
    assert_eq!(route(Method::Post, "/health", true), Route::MethodNotAllowed);
    assert_eq!(route(Method::Other, "/health", true), Route::MethodNotAllowed);
}
