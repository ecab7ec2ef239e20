use vstd::prelude::*;

use crate::errors::VerifierError;
use crate::json::{parse_json_raw, spec_json_parse, JsonValue};
use crate::urls::UrlParts;

verus! {

/// What one HTTP request came back with, as plain data: either a
/// response with its status code and body text, or a transport-level
/// failure with its message and whether the client attributes it to a
/// status condition.
#[derive(Debug, PartialEq, Eq)]
pub enum FetchOutcome {
    Response { status: u16, body: String },
    Transport { attributed_to_status: bool, message: String },
}

/// True exactly when `status` is an HTTP success code (2xx).
pub open spec fn spec_is_success(status: u16) -> bool {
    200 <= status < 300
}

/// Decides whether an HTTP status code counts as success (2xx).
pub fn is_success_status(status: u16) -> (r: bool)
    ensures
        r == spec_is_success(status),
{
    200 <= status && status < 300
}

/// The probe must fall back to a POST exactly when the GET came back
/// with status 405, method not allowed.
pub open spec fn spec_needs_post(get: &FetchOutcome) -> bool {
    get matches FetchOutcome::Response { status, .. } && status == 405
}

/// Decides whether a GET outcome asks for the one POST fallback.
pub fn needs_post_retry(get: &FetchOutcome) -> (r: bool)
    ensures
        r == spec_needs_post(get),
{
    match get {
        FetchOutcome::Response { status, .. } => *status == 405,
        FetchOutcome::Transport { .. } => false,
    }
}

/// The probe's verdict on a success response body: the JSON document it
/// holds, or `ResponseIsNotJson`.
pub open spec fn spec_body_verdict(body: Seq<char>, r: Result<JsonValue, VerifierError>) -> bool {
    match spec_json_parse(body) {
        Some(doc) => r matches Ok(j) && j@ == doc,
        None => r == Err::<JsonValue, VerifierError>(VerifierError::ResponseIsNotJson),
    }
}

/// The probe's verdict on the two requests' outcomes, exactly as
/// `ping_outcome` promises it.
pub open spec fn spec_ping_verdict(
    url: &UrlParts,
    get: &FetchOutcome,
    post: &Option<FetchOutcome>,
    r: Result<JsonValue, VerifierError>,
) -> bool {
    match get {
        FetchOutcome::Response { status, body } => {
            if 200 <= *status < 300 {
                spec_body_verdict(body@, r)
            } else if status == 405 {
                match post {
                    Some(FetchOutcome::Response { status: ps, body: pb }) => {
                        if 200 <= *ps < 300 {
                            spec_body_verdict(pb@, r)
                        } else {
                            r matches Err(e) && e matches VerifierError::UnresponsiveEndpoint(u)
                                && u == *url
                        }
                    },
                    Some(FetchOutcome::Transport { .. }) => r matches Err(e)
                        && e matches VerifierError::UnresponsiveEndpoint(u) && u == *url,
                    None => true,
                }
            } else {
                r matches Err(e) && e matches VerifierError::UnresponsiveEndpoint(u) && u == *url
            }
        },
        FetchOutcome::Transport { attributed_to_status, message } => {
            if *attributed_to_status {
                r == Err::<JsonValue, VerifierError>(VerifierError::BadStatus)
            } else {
                r matches Err(e) && e matches VerifierError::RequestError(m) && m == message
            }
        },
    }
}

/// Parses a success response's body as JSON.
fn body_to_json(body: String) -> (r: Result<JsonValue, VerifierError>)
    ensures
        spec_body_verdict(body@, r),
{
    match parse_json_raw(body.as_str()) {
        Some(j) => Ok(j),
        None => Err(VerifierError::ResponseIsNotJson),
    }
}

/// Classifies one probe of an endpoint, given what its GET came back
/// with and, exactly when the GET's status was 405 (method not
/// allowed), what the POST fallback came back with:
/// - a success (2xx) response's body is parsed as JSON; a body that is
///   not JSON is `ResponseIsNotJson`;
/// - on 405 the POST's outcome decides the same way, except that a
///   non-success POST response, or a POST transport failure, is
///   `UnresponsiveEndpoint`;
/// - any other non-success status is `UnresponsiveEndpoint`;
/// - a GET transport failure is `BadStatus` when the client attributes
///   it to a status condition, and `RequestError` otherwise.
pub fn ping_outcome(endpoint_url: &UrlParts, get: FetchOutcome, post: Option<FetchOutcome>) -> (r:
    Result<JsonValue, VerifierError>)
    requires
        (post is Some) <==> spec_needs_post(&get),
    ensures
        spec_ping_verdict(endpoint_url, &get, &post, r),
{
    match get {
        FetchOutcome::Response { status, body } => {
            if is_success_status(status) {
                body_to_json(body)
            } else if status == 405 {
                match post {
                    Some(FetchOutcome::Response { status: ps, body: pb }) => {
                        if is_success_status(ps) {
                            body_to_json(pb)
                        } else {
                            Err(VerifierError::UnresponsiveEndpoint(endpoint_url.clone()))
                        }
                    },
                    Some(FetchOutcome::Transport { .. }) => Err(
                        VerifierError::UnresponsiveEndpoint(endpoint_url.clone()),
                    ),
                    None => {
                        proof {
                            assert(false);
                        }
                        Err(VerifierError::BadStatus)
                    },
                }
            } else {
                Err(VerifierError::UnresponsiveEndpoint(endpoint_url.clone()))
            }
        },
        FetchOutcome::Transport { attributed_to_status, message } => {
            if attributed_to_status {
                Err(VerifierError::BadStatus)
            } else {
                Err(VerifierError::RequestError(message))
            }
        },
    }
}

} // verus!
