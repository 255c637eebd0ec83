use enma::domain::newrelic::model::{
    NewRelicErrorResponseModel, NewrelicQueryResult, NewrelicResponseModel, NewrelicResultModel,
};
use enma::domain::newrelic::{Extraction, Metric, Newrelic};
use enma::error::{respond, AppError, RequestError};
use enma::handler::v1::metrics::serve;
use enma::handler::v1::model::{Request, RequestData, Response};
use enma::handler::v1::{
    cpu_requested_cores_handler, cpu_used_cores_handler, memory_heap_used_handler,
    metric_handler, response_time_average_handler, thread_count_handler, throughput_handler,
    total_pods_handler,
};

const ALL: [Metric; 7] = [
    Metric::CpuUsedCore,
    Metric::CpuRequestedCore,
    Metric::TotalPods,
    Metric::ResponseTimeAverage,
    Metric::Throughput,
    Metric::MemoryHeapUsed,
    Metric::ThreadCount,
];

fn request() -> Request {
    Request {
        data: RequestData {
            application_name: String::from("shop"),
            start_time: String::from("1 hour ago"),
            end_time: String::from("now"),
        },
    }
}

fn row(result: Option<f32>, average: Option<f32>, unique_count: Option<f32>) -> NewrelicResultModel {
    NewrelicResultModel {
        result: result.map(f32::to_bits),
        average: average.map(f32::to_bits),
        unique_count: unique_count.map(f32::to_bits),
    }
}

fn results(rows: Vec<NewrelicResultModel>) -> Result<NewrelicQueryResult, RequestError> {
    Ok(NewrelicQueryResult::Results(NewrelicResponseModel::new(rows)))
}

#[test]
fn average_is_read_by_the_four_average_metrics() {
    for metric in [
        Metric::CpuUsedCore,
        Metric::CpuRequestedCore,
        Metric::MemoryHeapUsed,
        Metric::ThreadCount,
    ] {
        let reply = serve(metric, request(), results(vec![row(None, Some(7.5), None)]));
        assert_eq!(reply.status, 200, "{:?}", metric);
        assert_eq!(f32::from_bits(reply.body.get_result()), 7.5, "{:?}", metric);
        assert_eq!(reply.body.get_api_version(), "v1");
    }
}

#[test]
fn result_is_read_by_throughput_and_response_time() {
    for metric in [Metric::Throughput, Metric::ResponseTimeAverage] {
        let reply = serve(metric, request(), results(vec![row(Some(3.2), None, None)]));
        assert_eq!(reply.status, 200, "{:?}", metric);
        assert_eq!(f32::from_bits(reply.body.get_result()), 3.2, "{:?}", metric);
    }
}

#[test]
fn unique_count_is_read_by_total_pods() {
    let reply = serve(Metric::TotalPods, request(), results(vec![row(None, None, Some(4.0))]));
    assert_eq!(reply.status, 200);
    assert_eq!(f32::from_bits(reply.body.get_result()), 4.0);
}

#[test]
fn each_metric_reads_only_its_own_field() {
    let full = row(Some(1.0), Some(2.0), Some(3.0));
    for metric in ALL {
        let expected = match metric.extraction() {
            Extraction::Result => 1.0,
            Extraction::Average => 2.0,
            Extraction::UniqueCount => 3.0,
        };
        let reply = serve(metric, request(), results(vec![full]));
        assert_eq!(f32::from_bits(reply.body.get_result()), expected, "{:?}", metric);
    }
}

#[test]
fn all_fields_null_is_not_found_for_every_metric() {
    for metric in ALL {
        let reply = serve(metric, request(), results(vec![row(None, None, None)]));
        assert_eq!(reply.status, 404, "{:?}", metric);
        assert_eq!(f32::from_bits(reply.body.get_result()), 0.0, "{:?}", metric);
        assert_eq!(reply.body.get_api_version(), "v1");
    }
}

#[test]
fn other_fields_present_is_still_not_found() {
    let reply = serve(Metric::TotalPods, request(), results(vec![row(Some(1.0), Some(2.0), None)]));
    assert_eq!(reply.status, 404);
    assert_eq!(reply.body.get_result(), 0);
    let reply = serve(Metric::Throughput, request(), results(vec![row(None, Some(2.0), Some(3.0))]));
    assert_eq!(reply.status, 404);
    let reply = serve(Metric::ThreadCount, request(), results(vec![row(Some(1.0), None, Some(3.0))]));
    assert_eq!(reply.status, 404);
}

#[test]
fn no_row_is_not_found() {
    for metric in ALL {
        let reply = serve(metric, request(), results(vec![]));
        assert_eq!(reply.status, 404, "{:?}", metric);
        assert_eq!(reply.body.get_result(), 0);
    }
}

#[test]
fn only_the_first_row_counts() {
    let rows = vec![row(None, None, None), row(Some(1.0), Some(2.0), Some(3.0))];
    let reply = serve(Metric::CpuUsedCore, request(), results(rows));
    assert_eq!(reply.status, 404);
    let rows = vec![row(None, Some(9.0), None), row(None, Some(2.0), None)];
    let reply = serve(Metric::CpuUsedCore, request(), results(rows));
    assert_eq!(reply.status, 200);
    assert_eq!(f32::from_bits(reply.body.get_result()), 9.0);
}

#[test]
fn error_envelope_is_bad_gateway_for_every_metric() {
    for metric in ALL {
        let envelope = NewRelicErrorResponseModel::new(String::from("bad query"));
        let reply = serve(metric, request(), Ok(NewrelicQueryResult::Failure(envelope)));
        assert_eq!(reply.status, 502, "{:?}", metric);
        assert_eq!(f32::from_bits(reply.body.get_result()), 0.0, "{:?}", metric);
        assert_eq!(reply.body.get_api_version(), "v1");
        assert!(!format!("{:?}", reply.body).contains("bad query"));
    }
}

#[test]
fn transport_failure_is_internal_error_for_every_metric() {
    for metric in ALL {
        let failure = RequestError { cause: String::from("connection refused") };
        let reply = serve(metric, request(), Err(failure));
        assert_eq!(reply.status, 500, "{:?}", metric);
        assert_eq!(reply.body.get_result(), 0);
        assert!(!format!("{:?}", reply.body).contains("connection refused"));
    }
}

#[test]
fn a_zero_value_is_a_value() {
    let reply = serve(Metric::Throughput, request(), results(vec![row(Some(0.0), None, None)]));
    assert_eq!(reply.status, 200);
    assert_eq!(f32::from_bits(reply.body.get_result()), 0.0);
}

#[test]
fn getters_read_the_first_row() {
    let model = NewrelicResponseModel::new(vec![row(Some(1.5), Some(2.5), Some(3.5))]);
    assert_eq!(model.get_result().map(f32::from_bits), Some(1.5));
    assert_eq!(model.get_average().map(f32::from_bits), Some(2.5));
    assert_eq!(model.get_unique_count().map(f32::from_bits), Some(3.5));
    assert_eq!(model.get_field(Extraction::Result).map(f32::from_bits), Some(1.5));
    assert_eq!(model.get_field(Extraction::Average).map(f32::from_bits), Some(2.5));
    assert_eq!(model.get_field(Extraction::UniqueCount).map(f32::from_bits), Some(3.5));
    let empty = NewrelicResponseModel::new(vec![]);
    assert_eq!(empty.get_result(), None);
    assert_eq!(empty.get_average(), None);
    assert_eq!(empty.get_unique_count(), None);
}

#[test]
fn error_message_is_kept_for_the_log() {
    let envelope = NewRelicErrorResponseModel::new(String::from("bad query"));
    assert_eq!(envelope.get_error_msg(), "bad query");
}

#[test]
fn conclude_tells_the_three_answers_apart() {
    let data = NewrelicResponseModel::new(vec![row(None, Some(1.0), None)]);
    match Newrelic::conclude(Ok(NewrelicQueryResult::Results(data))) {
        Ok(data) => assert_eq!(data.get_average().map(f32::from_bits), Some(1.0)),
        Err(error) => panic!("{:?}", error),
    }
    let envelope = NewRelicErrorResponseModel::new(String::from("bad query"));
    match Newrelic::conclude(Ok(NewrelicQueryResult::Failure(envelope))) {
        Err(AppError::NewrelicError(inner)) => assert_eq!(inner.get_error_msg(), "bad query"),
        other => panic!("{:?}", other),
    }
    match Newrelic::conclude(Err(RequestError { cause: String::from("timed out") })) {
        Err(AppError::RequestError(inner)) => assert_eq!(inner.cause, "timed out"),
        other => panic!("{:?}", other),
    }
}

#[test]
fn null_metric_names_the_application_and_the_metric() {
    let data = NewrelicResponseModel::new(vec![row(None, None, None)]);
    match metric_handler(Metric::ThreadCount, request(), Ok(data)) {
        Err(AppError::NewrelicNull(name, metric)) => {
            assert_eq!(name, "shop");
            assert_eq!(metric, Metric::ThreadCount);
        }
        other => panic!("{:?}", other),
    }
}

#[test]
fn handler_passes_a_failure_on() {
    let failure = AppError::RequestError(RequestError { cause: String::from("reset") });
    match metric_handler(Metric::TotalPods, request(), Err(failure)) {
        Err(AppError::RequestError(inner)) => assert_eq!(inner.cause, "reset"),
        other => panic!("{:?}", other),
    }
}

fn value_of(outcome: Result<Response, AppError>) -> f32 {
    match outcome {
        Ok(response) => f32::from_bits(response.get_result()),
        Err(error) => panic!("{:?}", error),
    }
}

#[test]
fn each_named_handler_reads_its_metric() {
    let full = || Ok(NewrelicResponseModel::new(vec![row(Some(1.0), Some(2.0), Some(3.0))]));
    assert_eq!(value_of(cpu_requested_cores_handler(request(), full())), 2.0);
    assert_eq!(value_of(cpu_used_cores_handler(request(), full())), 2.0);
    assert_eq!(value_of(memory_heap_used_handler(request(), full())), 2.0);
    assert_eq!(value_of(thread_count_handler(request(), full())), 2.0);
    assert_eq!(value_of(response_time_average_handler(request(), full())), 1.0);
    assert_eq!(value_of(throughput_handler(request(), full())), 1.0);
    assert_eq!(value_of(total_pods_handler(request(), full())), 3.0);
}

#[test]
fn each_named_handler_reports_its_own_metric_as_null() {
    let none = || Ok(NewrelicResponseModel::new(vec![row(None, None, None)]));
    let metric_of = |outcome: Result<Response, AppError>| match outcome {
        Err(AppError::NewrelicNull(_, metric)) => metric,
        other => panic!("{:?}", other),
    };
    assert_eq!(metric_of(cpu_requested_cores_handler(request(), none())), Metric::CpuRequestedCore);
    assert_eq!(metric_of(cpu_used_cores_handler(request(), none())), Metric::CpuUsedCore);
    assert_eq!(metric_of(memory_heap_used_handler(request(), none())), Metric::MemoryHeapUsed);
    assert_eq!(metric_of(thread_count_handler(request(), none())), Metric::ThreadCount);
    assert_eq!(
        metric_of(response_time_average_handler(request(), none())),
        Metric::ResponseTimeAverage
    );
    assert_eq!(metric_of(throughput_handler(request(), none())), Metric::Throughput);
    assert_eq!(metric_of(total_pods_handler(request(), none())), Metric::TotalPods);
}

#[test]
fn respond_keeps_the_envelope_of_a_success() {
    let reply = respond(Ok(Response::set_response(12.25f32.to_bits())));
    assert_eq!(reply.status, 200);
    assert_eq!(f32::from_bits(reply.body.get_result()), 12.25);
    assert_eq!(reply.body.get_api_version(), "v1");
}

#[test]
fn default_envelope_is_zero() {
    let response = Response::default();
    assert_eq!(response.get_api_version(), "v1");
    assert_eq!(f32::from_bits(response.get_result()), 0.0);
    assert_eq!(response.get_result(), 0.0f32.to_bits());
}
