//! The metric catalog: the closed set of metric kinds, the query template of
//! each kind and the field of a result row that carries its value.

use vstd::prelude::*;
use vstd::string::StringExecFns;

verus! {

/// The operational metrics the gateway can ask the provider for.
#[derive(Debug, Clone, Copy, PartialEq, Eq, Structural)]
pub enum Metric {
    CpuUsedCore,
    CpuRequestedCore,
    TotalPods,
    ResponseTimeAverage,
    Throughput,
    MemoryHeapUsed,
    ThreadCount,
}

/// The field of a result row that holds the value of a metric.
#[derive(Debug, Clone, Copy, PartialEq, Eq, Structural)]
pub enum Extraction {
    Average,
    Result,
    UniqueCount,
}

/// The text of a query template up to the application name.
pub open spec fn query_head(metric: Metric) -> Seq<char> {
    match metric {
        Metric::CpuRequestedCore =>
            "from Metric SELECT average(k8s.container.cpuRequestedCores) where tags.app = '"@,
        Metric::CpuUsedCore =>
            "from Metric SELECT average(k8s.container.cpuUsedCores) where tags.app = '"@,
        Metric::MemoryHeapUsed =>
            "SELECT average(newrelic.timeslice.value) FROM Metric WHERE appName = '"@,
        Metric::ResponseTimeAverage =>
            "SELECT average(duration) * 1000 FROM Transaction WHERE appName = '"@,
        Metric::ThreadCount =>
            "SELECT average(newrelic.timeslice.value) FROM Metric WHERE appName = '"@,
        Metric::Throughput =>
            "SELECT rate(count(apm.service.transaction.duration), 1 minute) FROM Metric, Transaction WHERE appName = '"@,
        Metric::TotalPods =>
            "FROM K8sContainerSample SELECT uniqueCount(podName) WHERE label.app = '"@,
    }
}

/// The text of a query template between the application name and the start
/// of the time window.
pub open spec fn query_filter(metric: Metric) -> Seq<char> {
    match metric {
        Metric::CpuRequestedCore => "' SINCE "@,
        Metric::CpuUsedCore => "' SINCE "@,
        Metric::MemoryHeapUsed => "' AND metricTimesliceName = 'Memory/Heap/Used' SINCE "@,
        Metric::ResponseTimeAverage => "' AND transactionType = 'Web' SINCE "@,
        Metric::ThreadCount =>
            "' AND metricTimesliceName = 'JmxBuiltIn/Threads/Thread Count' SINCE "@,
        Metric::Throughput => "' AND transactionType = 'Web' SINCE "@,
        Metric::TotalPods => "' SINCE "@,
    }
}

/// The query for a metric: its template with the application name and the
/// two ends of the time window put in as they are.
pub open spec fn query_text(
    metric: Metric,
    application_name: Seq<char>,
    start_time: Seq<char>,
    end_time: Seq<char>,
) -> Seq<char> {
    query_head(metric) + application_name + query_filter(metric) + start_time + " UNTIL "@
        + end_time
}

/// The field that carries the value of each metric kind.
pub open spec fn extraction_of(metric: Metric) -> Extraction {
    match metric {
        Metric::CpuUsedCore => Extraction::Average,
        Metric::CpuRequestedCore => Extraction::Average,
        Metric::MemoryHeapUsed => Extraction::Average,
        Metric::ThreadCount => Extraction::Average,
        Metric::ResponseTimeAverage => Extraction::Result,
        Metric::Throughput => Extraction::Result,
        Metric::TotalPods => Extraction::UniqueCount,
    }
}

impl Metric {
    fn head(&self) -> (text: &'static str)
        ensures
            text@ == query_head(*self),
    {
        match self {
            Metric::CpuRequestedCore =>
                "from Metric SELECT average(k8s.container.cpuRequestedCores) where tags.app = '",
            Metric::CpuUsedCore =>
                "from Metric SELECT average(k8s.container.cpuUsedCores) where tags.app = '",
            Metric::MemoryHeapUsed =>
                "SELECT average(newrelic.timeslice.value) FROM Metric WHERE appName = '",
            Metric::ResponseTimeAverage =>
                "SELECT average(duration) * 1000 FROM Transaction WHERE appName = '",
            Metric::ThreadCount =>
                "SELECT average(newrelic.timeslice.value) FROM Metric WHERE appName = '",
            Metric::Throughput =>
                "SELECT rate(count(apm.service.transaction.duration), 1 minute) FROM Metric, Transaction WHERE appName = '",
            Metric::TotalPods =>
                "FROM K8sContainerSample SELECT uniqueCount(podName) WHERE label.app = '",
        }
    }

    fn filter(&self) -> (text: &'static str)
        ensures
            text@ == query_filter(*self),
    {
        match self {
            Metric::CpuRequestedCore => "' SINCE ",
            Metric::CpuUsedCore => "' SINCE ",
            Metric::MemoryHeapUsed => "' AND metricTimesliceName = 'Memory/Heap/Used' SINCE ",
            Metric::ResponseTimeAverage => "' AND transactionType = 'Web' SINCE ",
            Metric::ThreadCount =>
                "' AND metricTimesliceName = 'JmxBuiltIn/Threads/Thread Count' SINCE ",
            Metric::Throughput => "' AND transactionType = 'Web' SINCE ",
            Metric::TotalPods => "' SINCE ",
        }
    }

    /// Renders the query of this metric for an application and a time window.
    /// The three inputs are interpolated verbatim.
    pub fn get_query(&self, application_name: &str, start_time: &str, end_time: &str) -> (query:
        String)
        ensures
            query@ == query_text(*self, application_name@, start_time@, end_time@),
    {
        let mut query = String::from_str(self.head());
        query.append(application_name);
        query.append(self.filter());
        query.append(start_time);
        query.append(" UNTIL ");
        query.append(end_time);
        query
    }

    /// The field of a result row that this metric is read from.
    pub fn extraction(&self) -> (rule: Extraction)
        ensures
            rule == extraction_of(*self),
    {
        match self {
            Metric::CpuUsedCore => Extraction::Average,
            Metric::CpuRequestedCore => Extraction::Average,
            Metric::MemoryHeapUsed => Extraction::Average,
            Metric::ThreadCount => Extraction::Average,
            Metric::ResponseTimeAverage => Extraction::Result,
            Metric::Throughput => Extraction::Result,
            Metric::TotalPods => Extraction::UniqueCount,
        }
    }
}

} // verus!
