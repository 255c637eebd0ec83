use enma::configuration::NewrelicConfig;
use enma::domain::newrelic::newrelic::CONNECT_TIMEOUT_SECS;
use enma::domain::newrelic::{Metric, Newrelic};

fn client(account_id: i32) -> Newrelic {
    Newrelic::new(NewrelicConfig::new(String::from("SECRET-KEY"), account_id))
}

#[test]
fn call_has_the_account_in_the_path_and_the_query_as_parameter() {
    let call = client(1234567).prepare("shop", "1 hour ago", "now", Metric::TotalPods);
    assert_eq!(
        call.url,
        "https://insights-api.newrelic.com/v1/accounts/1234567/query?nrql=FROM K8sContainerSample SELECT uniqueCount(podName) WHERE label.app = 'shop' SINCE 1 hour ago UNTIL now"
    );
}

#[test]
fn call_carries_the_key_in_its_header() {
    let call = client(1).prepare("shop", "a", "b", Metric::Throughput);
    assert_eq!(call.header_name, "X-Query-Key");
    assert_eq!(call.header_value, "SECRET-KEY");
}

#[test]
fn call_url_ends_with_the_query_of_the_metric() {
    for metric in [Metric::CpuUsedCore, Metric::ThreadCount, Metric::ResponseTimeAverage] {
        let call = client(77).prepare("shop", "a", "b", metric);
        let expected = format!(
            "https://insights-api.newrelic.com/v1/accounts/77/query?nrql={}",
            metric.get_query("shop", "a", "b")
        );
        assert_eq!(call.url, expected);
    }
}

#[test]
fn negative_and_zero_accounts_are_rendered_as_they_are() {
    let call = client(-5).prepare("a", "b", "c", Metric::TotalPods);
    assert!(call.url.starts_with("https://insights-api.newrelic.com/v1/accounts/-5/query?nrql="));
    let call = client(0).prepare("a", "b", "c", Metric::TotalPods);
    assert!(call.url.starts_with("https://insights-api.newrelic.com/v1/accounts/0/query?nrql="));
    let call = client(i32::MIN).prepare("a", "b", "c", Metric::TotalPods);
    assert!(call
        .url
        .starts_with("https://insights-api.newrelic.com/v1/accounts/-2147483648/query?nrql="));
}

#[test]
fn client_settings_are_fixed() {
    let settings = Newrelic::client_settings("enma", "0.1.0");
    assert_eq!(settings.user_agent, "enma/0.1.0");
    assert_eq!(settings.connect_timeout_secs, 5);
    assert_eq!(CONNECT_TIMEOUT_SECS, 5);
    assert!(settings.http2_adaptive_window);
}
