use vstd::prelude::*;

use crate::json::JsonVal;

verus! {

/// HTTP method of an outbound request.
#[derive(Debug, Clone, Copy, PartialEq, Eq, Structural)]
pub enum Method {
    Get,
    Post,
}

/// One outbound request, fully determined before any transport work: the
/// caller sends it with `Content-Type: application/json` and the given
/// `Authorization` header, serializing `body` as JSON when present.
#[derive(Debug)]
pub struct HttpRequest {
    pub method: Method,
    pub url: String,
    pub auth_header: String,
    pub body: Option<JsonVal>,
}

/// What came back from one transport attempt: a failure before any response
/// arrived, or a status code with the response body. The body text is read
/// regardless of status and handed over as parsed JSON, `None` when it is
/// not valid JSON.
#[derive(Debug)]
pub enum HttpOutcome {
    Transport(String),
    Response { status: u16, body: Option<JsonVal> },
}

/// A status in the 4xx or 5xx range.
pub open spec fn spec_error_status(status: u16) -> bool {
    400 <= status < 600
}

} // verus!
