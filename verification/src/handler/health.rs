//! The health endpoint. It asks nothing of the provider.

use crate::error::OK;
use vstd::prelude::*;
use vstd::string::StringExecFns;

verus! {

/// The body of the health endpoint.
#[derive(Debug)]
pub struct Health {
    pub code: u16,
    pub message: String,
    pub version: String,
}

/// The message of a healthy gateway.
pub open spec fn health_message() -> Seq<char> {
    "Oeeeei, I'm healthy"@
}

/// The answer of the health endpoint for the version of the running
/// program: always the code 200, which is also its status.
pub fn health(version: &str) -> (body: Health)
    ensures
        body.code == OK,
        body.message@ == health_message(),
        body.version@ == version@,
{
    Health {
        code: OK,
        message: String::from_str("Oeeeei, I'm healthy"),
        version: String::from_str(version),
    }
}

} // verus!
