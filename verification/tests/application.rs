use enma::application::lifecycle::Phase;
use enma::application::observe::{
    requests_duration_seconds, requests_total, span_fields, track_metrics,
};
use enma::application::{build, graceful_shutdown, middleware_stack, Layer};
use enma::configuration::{default_server_config, NewrelicConfig, ServerConfig};
use enma::domain::newrelic::Newrelic;

fn client() -> Newrelic {
    Newrelic::new(NewrelicConfig::new(String::from("key"), 1))
}

#[test]
fn layers_come_in_their_fixed_order() {
    let config = ServerConfig::new(80, 7, 3, 11, 2000, 4000, false).unwrap();
    assert_eq!(
        middleware_stack(&config),
        vec![
            Layer::ErrorRecovery,
            Layer::LoadShed,
            Layer::Buffer { capacity: 7 },
            Layer::ConcurrencyLimit { limit: 3 },
            Layer::Timeout { millis: 4000 },
            Layer::RateLimit { requests: 11, per_millis: 2000 },
            Layer::Trace,
            Layer::Compression,
        ]
    );
}

#[test]
fn metrics_layer_is_there_only_when_enabled() {
    let off = ServerConfig::new(80, 1, 1, 1, 1, 1, false).unwrap();
    let on = ServerConfig::new(80, 1, 1, 1, 1, 1, true).unwrap();
    assert!(!middleware_stack(&off).contains(&Layer::Metrics));
    let layers = middleware_stack(&on);
    assert_eq!(layers.len(), 9);
    assert_eq!(layers[7], Layer::Metrics);
    assert_eq!(layers[8], Layer::Compression);
}

#[test]
fn build_starts_empty() {
    let application = build(default_server_config(), client());
    assert_eq!(application.pipeline.in_flight(), 0);
    assert_eq!(application.pipeline.buffered(), 0);
    assert_eq!(*application.pipeline.config().get_concurrency_limit(), 5);
    assert_eq!(application.lifecycle.phase(), Phase::Starting);
    assert_eq!(application.lifecycle.connection_count(), 0);
    assert!(!application.metrics);
    assert_eq!(application.layers.len(), 8);
}

#[test]
fn shutdown_begins_the_drain_and_leaves_the_pipeline() {
    let mut application = build(default_server_config(), client());
    application.lifecycle.listening();
    assert!(application.lifecycle.accept());
    application.pipeline.arrive(10);
    graceful_shutdown(&mut application, 500);
    assert_eq!(application.lifecycle.phase(), Phase::Draining { since: 500 });
    assert_eq!(application.pipeline.in_flight(), 1);
}

#[test]
fn span_takes_the_real_ip_header_or_nothing() {
    let fields = span_fields("/health", "10.0.0.1:5000", Some("203.0.113.9"));
    assert_eq!(fields.path, "/health");
    assert_eq!(fields.ip, "10.0.0.1:5000");
    assert_eq!(fields.x_real_ip, "203.0.113.9");
    let fields = span_fields("/health", "10.0.0.1:5000", None);
    assert_eq!(fields.x_real_ip, "");
}

#[test]
fn labels_prefer_the_matched_path() {
    let labels = track_metrics("POST", Some("/v1/newrelic/pods-total"), "/v1/newrelic/pods-total?x=1", 200);
    assert_eq!(labels.method, "POST");
    assert_eq!(labels.path, "/v1/newrelic/pods-total");
    assert_eq!(labels.status, "200");
    let labels = track_metrics("GET", None, "/nowhere", 404);
    assert_eq!(labels.path, "/nowhere");
    assert_eq!(labels.status, "404");
}

#[test]
fn metric_names() {
    assert_eq!(requests_total(), "enma_http_requests_total");
    assert_eq!(requests_duration_seconds(), "enma_http_requests_duration_seconds");
}
