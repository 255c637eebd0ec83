use enma::domain::newrelic::model::NewRelicErrorResponseModel;
use enma::domain::newrelic::Metric;
use enma::error::{
    handle_error, AppError, Rejection, RequestError, BAD_GATEWAY, INTERNAL_SERVER_ERROR,
    NOT_FOUND, OK, REQUEST_TIMEOUT, SERVICE_UNAVAILABLE,
};

#[test]
fn status_constants() {
    assert_eq!(OK, 200);
    assert_eq!(NOT_FOUND, 404);
    assert_eq!(REQUEST_TIMEOUT, 408);
    assert_eq!(INTERNAL_SERVER_ERROR, 500);
    assert_eq!(BAD_GATEWAY, 502);
    assert_eq!(SERVICE_UNAVAILABLE, 503);
}

#[test]
fn timeout_is_answered_with_408() {
    let reply = handle_error(Rejection::Elapsed);
    assert_eq!(reply.status(), 408);
    assert_eq!(reply.message(), "request time out");
    assert_eq!(reply.body(), "{\"code\":408,\"error\":\"request time out\"}");
}

#[test]
fn limiter_timeout_is_answered_like_a_timeout() {
    let limiter = handle_error(Rejection::LimiterElapsed);
    let handler = handle_error(Rejection::Elapsed);
    assert_eq!(limiter.status(), handler.status());
    assert_eq!(limiter.body(), handler.body());
    assert_ne!(Rejection::LimiterElapsed, Rejection::Elapsed);
}

#[test]
fn overload_is_answered_with_503() {
    let reply = handle_error(Rejection::Overloaded);
    assert_eq!(reply.status(), 503);
    assert_eq!(reply.body(), "{\"code\":503,\"error\":\"service unavailable\"}");
}

#[test]
fn anything_else_is_answered_with_500() {
    let reply = handle_error(Rejection::Unclassified);
    assert_eq!(reply.status(), 500);
    assert_eq!(reply.body(), "{\"code\":500,\"error\":\"unhandled internal error\"}");
}

#[test]
fn provider_error_is_bad_gateway() {
    let error = AppError::from(NewRelicErrorResponseModel::new(String::from("bad query")));
    assert_eq!(error.status(), 502);
    let reply = error.into_response();
    assert_eq!(reply.status, 502);
    assert_eq!(reply.body.get_result(), 0);
    assert_eq!(reply.body.get_api_version(), "v1");
}

#[test]
fn null_metric_is_not_found() {
    let error = AppError::NewrelicNull(String::from("shop"), Metric::TotalPods);
    assert_eq!(error.status(), 404);
    let reply = error.into_response();
    assert_eq!(reply.status, 404);
    assert_eq!(reply.body.get_result(), 0);
}

#[test]
fn transport_failure_is_internal_error() {
    let error = AppError::from(RequestError { cause: String::from("dns") });
    assert_eq!(error.status(), 500);
    let reply = error.into_response();
    assert_eq!(reply.status, 500);
    assert_eq!(reply.body.get_result(), 0);
}

#[test]
fn from_wraps_each_cause_in_its_variant() {
    match AppError::from(NewRelicErrorResponseModel::new(String::from("x"))) {
        AppError::NewrelicError(inner) => assert_eq!(inner.get_error_msg(), "x"),
        other => panic!("{:?}", other),
    }
    match AppError::from(RequestError { cause: String::from("y") }) {
        AppError::RequestError(inner) => assert_eq!(inner.cause, "y"),
        other => panic!("{:?}", other),
    }
}
