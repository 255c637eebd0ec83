//! The route handlers of the metric endpoints. Each is the same adapter for
//! its own metric: read the field of the metric from the provider's answer
//! and put it in an envelope, or say why there is none.

use crate::domain::newrelic::metric::{extraction_of, Metric};
use crate::domain::newrelic::model::{first_row_field, NewrelicQueryResult, NewrelicResponseModel};
use crate::domain::newrelic::newrelic::{conclusion, Newrelic};
use crate::error::{
    respond, status_of, AppError, AppErrorView, Reply, RequestError, BAD_GATEWAY,
    INTERNAL_SERVER_ERROR, NOT_FOUND, OK,
};
use crate::handler::v1::model::{envelope, Request, Response, ResponseView, ZERO_RESULT};
use vstd::prelude::*;

verus! {

/// The mathematical content of the outcome of a handler.
pub open spec fn outcome_view(outcome: Result<Response, AppError>) -> Result<
    ResponseView,
    AppErrorView,
> {
    match outcome {
        Ok(response) => Ok(response@),
        Err(error) => Err(error@),
    }
}

/// What a handler makes of the provider's answer: the envelope of the
/// metric's field in the first row; the null-metric failure, with the
/// application and the metric, where the field is absent; the failure of the
/// answer itself where it has one.
pub open spec fn handled(
    metric: Metric,
    application_name: Seq<char>,
    answer: Result<NewrelicResponseModel, AppError>,
) -> Result<ResponseView, AppErrorView> {
    match answer {
        Ok(data) => match first_row_field(data@, extraction_of(metric)) {
            Some(value) => Ok(envelope(value)),
            None => Err(AppErrorView::NewrelicNull(application_name, metric)),
        },
        Err(error) => Err(error@),
    }
}

/// The handler of any metric.
pub fn metric_handler(
    metric: Metric,
    req: Request,
    answer: Result<NewrelicResponseModel, AppError>,
) -> (outcome: Result<Response, AppError>)
    ensures
        outcome_view(outcome) == handled(metric, req.data.application_name@, answer),
{
    match answer {
        Ok(data) => match data.get_field(metric.extraction()) {
            Some(value) => Ok(Response::set_response(value)),
            None => Err(AppError::NewrelicNull(req.data.application_name, metric)),
        },
        Err(error) => Err(error),
    }
}

pub fn cpu_requested_cores_handler(
    req: Request,
    answer: Result<NewrelicResponseModel, AppError>,
) -> (outcome: Result<Response, AppError>)
    ensures
        outcome_view(outcome) == handled(
            Metric::CpuRequestedCore,
            req.data.application_name@,
            answer,
        ),
{
    metric_handler(Metric::CpuRequestedCore, req, answer)
}

pub fn cpu_used_cores_handler(req: Request, answer: Result<NewrelicResponseModel, AppError>) -> (outcome: Result<Response, AppError>)
    ensures
        outcome_view(outcome) == handled(Metric::CpuUsedCore, req.data.application_name@, answer),
{
    metric_handler(Metric::CpuUsedCore, req, answer)
}

pub fn memory_heap_used_handler(
    req: Request,
    answer: Result<NewrelicResponseModel, AppError>,
) -> (outcome: Result<Response, AppError>)
    ensures
        outcome_view(outcome) == handled(
            Metric::MemoryHeapUsed,
            req.data.application_name@,
            answer,
        ),
{
    metric_handler(Metric::MemoryHeapUsed, req, answer)
}

pub fn response_time_average_handler(
    req: Request,
    answer: Result<NewrelicResponseModel, AppError>,
) -> (outcome: Result<Response, AppError>)
    ensures
        outcome_view(outcome) == handled(
            Metric::ResponseTimeAverage,
            req.data.application_name@,
            answer,
        ),
{
    metric_handler(Metric::ResponseTimeAverage, req, answer)
}

pub fn thread_count_handler(req: Request, answer: Result<NewrelicResponseModel, AppError>) -> (outcome: Result<Response, AppError>)
    ensures
        outcome_view(outcome) == handled(Metric::ThreadCount, req.data.application_name@, answer),
{
    metric_handler(Metric::ThreadCount, req, answer)
}

pub fn throughput_handler(req: Request, answer: Result<NewrelicResponseModel, AppError>) -> (outcome: Result<Response, AppError>)
    ensures
        outcome_view(outcome) == handled(Metric::Throughput, req.data.application_name@, answer),
{
    metric_handler(Metric::Throughput, req, answer)
}

pub fn total_pods_handler(req: Request, answer: Result<NewrelicResponseModel, AppError>) -> (outcome: Result<Response, AppError>)
    ensures
        outcome_view(outcome) == handled(Metric::TotalPods, req.data.application_name@, answer),
{
    metric_handler(Metric::TotalPods, req, answer)
}

/// The status and the value a caller sees for what the transport brought
/// back: the whole way from the provider's answer to the reply.
pub open spec fn served(
    metric: Metric,
    application_name: Seq<char>,
    fetched: Result<NewrelicQueryResult, RequestError>,
) -> (u16, u32) {
    match handled(metric, application_name, conclusion(fetched)) {
        Ok(response) => (OK, response.result),
        Err(error) => (status_of(error), ZERO_RESULT),
    }
}

/// Answers a call to a metric endpoint from what the transport brought
/// back.
pub fn serve(metric: Metric, req: Request, fetched: Result<NewrelicQueryResult, RequestError>) -> (reply: Reply)
    ensures
        (reply.status, reply.body@.result) == served(metric, req.data.application_name@, fetched),
        reply.body@.api_version == "v1"@,
{
    let answer = Newrelic::conclude(fetched);
    let outcome = metric_handler(metric, req, answer);
    respond(outcome)
}

/// A results envelope whose first row holds the metric's field is answered
/// with status 200 and that very value.
pub proof fn lemma_present_value_is_served(
    metric: Metric,
    application_name: Seq<char>,
    data: NewrelicResponseModel,
    value: u32,
)
    requires
        first_row_field(data@, extraction_of(metric)) == Some(value),
    ensures
        served(metric, application_name, Ok(NewrelicQueryResult::Results(data))) == (OK, value),
{
}

/// A results envelope whose first row lacks the metric's field, or that has
/// no row, is answered with status 404 and the zero value.
pub proof fn lemma_absent_value_is_not_found(
    metric: Metric,
    application_name: Seq<char>,
    data: NewrelicResponseModel,
)
    requires
        first_row_field(data@, extraction_of(metric)) is None,
    ensures
        served(metric, application_name, Ok(NewrelicQueryResult::Results(data))) == (
            NOT_FOUND,
            ZERO_RESULT,
        ),
{
}

/// An error envelope is answered with status 502 and the zero value,
/// whatever its message and whatever the metric. A transport failure is
/// answered with status 500 and the zero value, whatever its cause.
pub proof fn lemma_failures_are_opaque(
    metric: Metric,
    application_name: Seq<char>,
    fetched: Result<NewrelicQueryResult, RequestError>,
)
    ensures
        fetched matches Ok(NewrelicQueryResult::Failure(_)) ==> served(
            metric,
            application_name,
            fetched,
        ) == (BAD_GATEWAY, ZERO_RESULT),
        fetched is Err ==> served(metric, application_name, fetched) == (
            INTERNAL_SERVER_ERROR,
            ZERO_RESULT,
        ),
{
}

} // verus!
