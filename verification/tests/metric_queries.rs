use enma::domain::newrelic::{Extraction, Metric};

const ALL: [Metric; 7] = [
    Metric::CpuUsedCore,
    Metric::CpuRequestedCore,
    Metric::TotalPods,
    Metric::ResponseTimeAverage,
    Metric::Throughput,
    Metric::MemoryHeapUsed,
    Metric::ThreadCount,
];

#[test]
fn cpu_requested_core_query() {
    assert_eq!(
        Metric::CpuRequestedCore.get_query("shop", "1 hour ago", "now"),
        "from Metric SELECT average(k8s.container.cpuRequestedCores) where tags.app = 'shop' SINCE 1 hour ago UNTIL now"
    );
}

#[test]
fn cpu_used_core_query() {
    assert_eq!(
        Metric::CpuUsedCore.get_query("shop", "1 hour ago", "now"),
        "from Metric SELECT average(k8s.container.cpuUsedCores) where tags.app = 'shop' SINCE 1 hour ago UNTIL now"
    );
}

#[test]
fn memory_heap_used_query() {
    assert_eq!(
        Metric::MemoryHeapUsed.get_query("shop", "a", "b"),
        "SELECT average(newrelic.timeslice.value) FROM Metric WHERE appName = 'shop' AND metricTimesliceName = 'Memory/Heap/Used' SINCE a UNTIL b"
    );
}

#[test]
fn response_time_average_query() {
    assert_eq!(
        Metric::ResponseTimeAverage.get_query("shop", "a", "b"),
        "SELECT average(duration) * 1000 FROM Transaction WHERE appName = 'shop' AND transactionType = 'Web' SINCE a UNTIL b"
    );
}

#[test]
fn thread_count_query() {
    assert_eq!(
        Metric::ThreadCount.get_query("shop", "a", "b"),
        "SELECT average(newrelic.timeslice.value) FROM Metric WHERE appName = 'shop' AND metricTimesliceName = 'JmxBuiltIn/Threads/Thread Count' SINCE a UNTIL b"
    );
}

#[test]
fn throughput_query() {
    assert_eq!(
        Metric::Throughput.get_query("shop", "a", "b"),
        "SELECT rate(count(apm.service.transaction.duration), 1 minute) FROM Metric, Transaction WHERE appName = 'shop' AND transactionType = 'Web' SINCE a UNTIL b"
    );
}

#[test]
fn total_pods_query() {
    assert_eq!(
        Metric::TotalPods.get_query("shop", "a", "b"),
        "FROM K8sContainerSample SELECT uniqueCount(podName) WHERE label.app = 'shop' SINCE a UNTIL b"
    );
}

#[test]
fn query_inputs_are_interpolated_verbatim() {
    let query = Metric::TotalPods.get_query("a'b c", "", "2 days ago ");
    assert_eq!(
        query,
        "FROM K8sContainerSample SELECT uniqueCount(podName) WHERE label.app = 'a'b c' SINCE  UNTIL 2 days ago "
    );
}

#[test]
fn query_keeps_non_ascii_input() {
    let query = Metric::CpuUsedCore.get_query("café", "été", "ñ");
    assert!(query.ends_with("tags.app = 'café' SINCE été UNTIL ñ"));
}

#[test]
fn extraction_rule_of_each_metric() {
    assert_eq!(Metric::CpuUsedCore.extraction(), Extraction::Average);
    assert_eq!(Metric::CpuRequestedCore.extraction(), Extraction::Average);
    assert_eq!(Metric::MemoryHeapUsed.extraction(), Extraction::Average);
    assert_eq!(Metric::ThreadCount.extraction(), Extraction::Average);
    assert_eq!(Metric::ResponseTimeAverage.extraction(), Extraction::Result);
    assert_eq!(Metric::Throughput.extraction(), Extraction::Result);
    assert_eq!(Metric::TotalPods.extraction(), Extraction::UniqueCount);
}

#[test]
fn every_query_ends_with_the_window() {
    for metric in ALL {
        let query = metric.get_query("app", "START", "END");
        assert!(query.ends_with(" SINCE START UNTIL END"), "{:?}", metric);
        assert!(query.contains("'app'"), "{:?}", metric);
    }
}
