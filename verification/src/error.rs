//! The error taxonomy: every terminal outcome of a request mapped to one
//! status and one body. Nothing the provider wrote reaches a body.

use crate::domain::newrelic::metric::Metric;
use crate::domain::newrelic::model::NewRelicErrorResponseModel;
use crate::handler::v1::model::{envelope, Response, ZERO_RESULT};
use crate::text::{decimal, decimal_text};
use vstd::prelude::*;
use vstd::string::StringExecFns;

verus! {

pub const OK: u16 = 200;

pub const NOT_FOUND: u16 = 404;

pub const REQUEST_TIMEOUT: u16 = 408;

pub const INTERNAL_SERVER_ERROR: u16 = 500;

pub const BAD_GATEWAY: u16 = 502;

pub const SERVICE_UNAVAILABLE: u16 = 503;

/// A failure of the transport to the provider: the call could not be
/// connected, sent, or its answer read. `cause` is kept for the log.
#[derive(Debug)]
pub struct RequestError {
    pub cause: String,
}

/// A failure inside a route handler.
#[derive(Debug)]
pub enum AppError {
    /// The provider answered with an error envelope.
    NewrelicError(NewRelicErrorResponseModel),
    /// The provider answered well, but the field of the metric was absent.
    /// Holds the application asked about and the metric.
    NewrelicNull(String, Metric),
    /// The provider could not be reached or its answer not read.
    RequestError(RequestError),
}

/// The mathematical content of an [`AppError`].
pub ghost enum AppErrorView {
    NewrelicError(Seq<char>),
    NewrelicNull(Seq<char>, Metric),
    RequestError(Seq<char>),
}

impl View for AppError {
    type V = AppErrorView;

    open spec fn view(&self) -> AppErrorView {
        match self {
            AppError::NewrelicError(inner) => AppErrorView::NewrelicError(inner@),
            AppError::NewrelicNull(name, metric) => AppErrorView::NewrelicNull(name@, *metric),
            AppError::RequestError(inner) => AppErrorView::RequestError(inner.cause@),
        }
    }
}

impl From<NewRelicErrorResponseModel> for AppError {
    fn from(inner: NewRelicErrorResponseModel) -> (error: Self) {
        AppError::NewrelicError(inner)
    }
}

impl vstd::std_specs::convert::FromSpecImpl<NewRelicErrorResponseModel> for AppError {
    open spec fn obeys_from_spec() -> bool {
        true
    }

    open spec fn from_spec(inner: NewRelicErrorResponseModel) -> Self {
        AppError::NewrelicError(inner)
    }
}

impl From<RequestError> for AppError {
    fn from(inner: RequestError) -> (error: Self) {
        AppError::RequestError(inner)
    }
}

impl vstd::std_specs::convert::FromSpecImpl<RequestError> for AppError {
    open spec fn obeys_from_spec() -> bool {
        true
    }

    open spec fn from_spec(inner: RequestError) -> Self {
        AppError::RequestError(inner)
    }
}

/// The status each handler failure is answered with.
pub open spec fn status_of(error: AppErrorView) -> u16 {
    match error {
        AppErrorView::NewrelicError(_) => BAD_GATEWAY,
        AppErrorView::NewrelicNull(_, _) => NOT_FOUND,
        AppErrorView::RequestError(_) => INTERNAL_SERVER_ERROR,
    }
}

/// What a route handler answers a caller with: a status and an envelope.
#[derive(Debug)]
pub struct Reply {
    pub status: u16,
    pub body: Response,
}

impl AppError {
    /// The status this failure is answered with.
    pub fn status(&self) -> (status: u16)
        ensures
            status == status_of(self@),
    {
        match self {
            AppError::NewrelicError(_) => BAD_GATEWAY,
            AppError::NewrelicNull(_, _) => NOT_FOUND,
            AppError::RequestError(_) => INTERNAL_SERVER_ERROR,
        }
    }

    /// The answer to the caller: the status of the failure and the
    /// zero-value envelope, whatever the failure holds.
    pub fn into_response(self) -> (reply: Reply)
        ensures
            reply.status == status_of(self@),
            reply.body@ == envelope(ZERO_RESULT),
    {
        let status = self.status();
        Reply { status, body: Response::default() }
    }
}

/// The answer to a caller for the outcome of a route handler: the envelope
/// with status 200, or the answer of the failure.
pub open spec fn reply_of(outcome: Result<Response, AppError>) -> (u16, u32) {
    match outcome {
        Ok(response) => (OK, response@.result),
        Err(error) => (status_of(error@), ZERO_RESULT),
    }
}

/// Turns the outcome of a route handler into the answer to the caller.
pub fn respond(outcome: Result<Response, AppError>) -> (reply: Reply)
    ensures
        reply.status == reply_of(outcome).0,
        reply.body@.result == reply_of(outcome).1,
        outcome matches Ok(response) ==> reply.body@ == response@,
        outcome is Err ==> reply.body@ == envelope(ZERO_RESULT),
{
    match outcome {
        Ok(response) => Reply { status: OK, body: response },
        Err(error) => error.into_response(),
    }
}

/// Why an admission layer turned a request away.
#[derive(Debug, Clone, Copy, PartialEq, Eq, Structural)]
pub enum Rejection {
    /// The handler did not answer within the request timeout.
    Elapsed,
    /// No rate-limit token came within the limiter timeout.
    LimiterElapsed,
    /// The buffer behind the load-shedding layer was full.
    Overloaded,
    /// Any other failure of a layer.
    Unclassified,
}

/// The status a rejection is answered with. The two timeouts answer alike.
pub open spec fn rejection_status(rejection: Rejection) -> u16 {
    match rejection {
        Rejection::Elapsed => REQUEST_TIMEOUT,
        Rejection::LimiterElapsed => REQUEST_TIMEOUT,
        Rejection::Overloaded => SERVICE_UNAVAILABLE,
        Rejection::Unclassified => INTERNAL_SERVER_ERROR,
    }
}

/// The message a rejection is answered with.
pub open spec fn rejection_message(rejection: Rejection) -> Seq<char> {
    match rejection {
        Rejection::Elapsed => "request time out"@,
        Rejection::LimiterElapsed => "request time out"@,
        Rejection::Overloaded => "service unavailable"@,
        Rejection::Unclassified => "unhandled internal error"@,
    }
}

/// The JSON text of a rejection body: the code, then the message.
pub open spec fn error_body_text(code: u16, message: Seq<char>) -> Seq<char> {
    "{\"code\":"@ + decimal_text(code as nat) + ",\"error\":\""@ + message + "\"}"@
}

/// The answer to a caller whose request an admission layer turned away.
#[derive(Debug)]
pub struct ErrorReply {
    status: u16,
    error: &'static str,
}

impl ErrorReply {
    /// The status of the answer, which is also the code in its body.
    pub closed spec fn spec_status(&self) -> u16 {
        self.status
    }

    /// The message in the body of the answer.
    pub closed spec fn spec_message(&self) -> Seq<char> {
        self.error@
    }

    /// The status of the answer.
    pub fn status(&self) -> (status: u16)
        ensures
            status == self.spec_status(),
    {
        self.status
    }

    /// The message in the body of the answer.
    pub fn message(&self) -> (message: &'static str)
        ensures
            message@ == self.spec_message(),
    {
        self.error
    }

    /// The body of the answer as JSON text.
    pub fn body(&self) -> (text: String)
        ensures
            text@ == error_body_text(self.spec_status(), self.spec_message()),
    {
        let mut text = String::from_str("{\"code\":");
        let code = decimal(self.status as u64);
        text.append(code.as_str());
        text.append(",\"error\":\"");
        text.append(self.error);
        text.append("\"}");
        text
    }
}

/// Maps a rejection of an admission layer to the answer to the caller.
pub fn handle_error(error: Rejection) -> (reply: ErrorReply)
    ensures
        reply.spec_status() == rejection_status(error),
        reply.spec_message() == rejection_message(error),
{
    match error {
        Rejection::Elapsed => ErrorReply { status: REQUEST_TIMEOUT, error: "request time out" },
        Rejection::LimiterElapsed => ErrorReply {
            status: REQUEST_TIMEOUT,
            error: "request time out",
        },
        Rejection::Overloaded => ErrorReply {
            status: SERVICE_UNAVAILABLE,
            error: "service unavailable",
        },
        Rejection::Unclassified => ErrorReply {
            status: INTERNAL_SERVER_ERROR,
            error: "unhandled internal error",
        },
    }
}

/// The body of each rejection, letter for letter. The two timeouts have
/// the same body.
pub proof fn lemma_rejection_bodies()
    ensures
        error_body_text(
            rejection_status(Rejection::Elapsed),
            rejection_message(Rejection::Elapsed),
        ) == "{\"code\":408,\"error\":\"request time out\"}"@,
        error_body_text(
            rejection_status(Rejection::LimiterElapsed),
            rejection_message(Rejection::LimiterElapsed),
        ) == "{\"code\":408,\"error\":\"request time out\"}"@,
        error_body_text(
            rejection_status(Rejection::Overloaded),
            rejection_message(Rejection::Overloaded),
        ) == "{\"code\":503,\"error\":\"service unavailable\"}"@,
        error_body_text(
            rejection_status(Rejection::Unclassified),
            rejection_message(Rejection::Unclassified),
        ) == "{\"code\":500,\"error\":\"unhandled internal error\"}"@,
{
    reveal_strlit("{\"code\":");
    reveal_strlit(",\"error\":\"");
    reveal_strlit("\"}");
    reveal_strlit("request time out");
    reveal_strlit("service unavailable");
    reveal_strlit("unhandled internal error");
    reveal_strlit("{\"code\":408,\"error\":\"request time out\"}");
    reveal_strlit("{\"code\":503,\"error\":\"service unavailable\"}");
    reveal_strlit("{\"code\":500,\"error\":\"unhandled internal error\"}");
    reveal_with_fuel(decimal_text, 3);
    assert(decimal_text(408) =~= seq!['4', '0', '8']);
    assert(decimal_text(503) =~= seq!['5', '0', '3']);
    assert(decimal_text(500) =~= seq!['5', '0', '0']);
    assert(error_body_text(408, "request time out"@)
        =~= "{\"code\":408,\"error\":\"request time out\"}"@);
    assert(error_body_text(503, "service unavailable"@)
        =~= "{\"code\":503,\"error\":\"service unavailable\"}"@);
    assert(error_body_text(500, "unhandled internal error"@)
        =~= "{\"code\":500,\"error\":\"unhandled internal error\"}"@);
}

} // verus!
