//! The bodies of the metric endpoints: what a caller sends and what it gets
//! back.

use vstd::prelude::*;
use vstd::string::StringExecFns;

verus! {

/// The application and the time window a caller asks about. The two ends of
/// the window are passed on to the provider as they are.
#[derive(Debug)]
pub struct RequestData {
    pub application_name: String,
    pub start_time: String,
    pub end_time: String,
}

/// The body of a call to a metric endpoint.
#[derive(Debug)]
pub struct Request {
    pub data: RequestData,
}

/// The mathematical content of a [`Response`].
pub ghost struct ResponseView {
    pub api_version: Seq<char>,
    pub result: u32,
}

/// The envelope every metric endpoint answers with. `result` is the bit
/// pattern of a single-precision number.
#[derive(Debug)]
pub struct Response {
    api_version: String,
    result: u32,
}

/// The bit pattern of the single-precision number zero.
pub const ZERO_RESULT: u32 = 0;

/// The envelope that carries `result`.
pub open spec fn envelope(result: u32) -> ResponseView {
    ResponseView { api_version: "v1"@, result }
}

impl View for Response {
    type V = ResponseView;

    closed spec fn view(&self) -> ResponseView {
        ResponseView { api_version: self.api_version@, result: self.result }
    }
}

impl Response {
    /// The envelope of a metric value.
    pub fn set_response(res: u32) -> (response: Self)
        ensures
            response@ == envelope(res),
    {
        Response { api_version: String::from_str("v1"), result: res }
    }

    /// The zero-value envelope, which every failure answers with.
    pub fn default() -> (response: Self)
        ensures
            response@ == envelope(ZERO_RESULT),
    {
        Response { api_version: String::from_str("v1"), result: ZERO_RESULT }
    }

    /// The version tag of the envelope.
    pub fn get_api_version(&self) -> (version: &str)
        ensures
            version@ == self@.api_version,
    {
        self.api_version.as_str()
    }

    /// The bit pattern of the value the envelope carries.
    pub fn get_result(&self) -> (result: u32)
        ensures
            result == self@.result,
    {
        self.result
    }
}

} // verus!
