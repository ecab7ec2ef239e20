use vstd::prelude::*;

use crate::urls::UrlParts;

verus! {

/// Where a structurally malformed listing response first deviates from
/// the expected shape
/// `{"response":{"resultSets":[{"results":[{"id": ...}]}]}}`.
#[derive(Debug, Clone, Copy, PartialEq, Eq, Structural)]
pub enum ShapeError {
    /// The document itself is not a JSON object.
    NotAnObject,
    /// The document has no `response` member.
    MissingResponse,
    /// The `response` member is not an object.
    ResponseNotAnObject,
    /// The `response` object has no `resultSets` member.
    MissingResultSets,
    /// The `resultSets` member is not an array.
    ResultSetsNotAnArray,
    /// An element of `resultSets` is not an object.
    ResultSetNotAnObject,
    /// A result set has no `results` member.
    MissingResults,
    /// The `results` member is not an array.
    ResultsNotAnArray,
    /// A result record carries none of `id`, `variantInternalId` and
    /// `cohortId` as a string.
    MissingIdentifier,
}

/// Every failure the probing and validation engine can report.
#[derive(Debug, PartialEq, Eq)]
pub enum VerifierError {
    /// The endpoint was reachable but answered with a non-success status,
    /// or its one permitted POST fallback after a 405 failed, whether with
    /// a non-success status or at the transport level; carries the URL.
    UnresponsiveEndpoint(UrlParts),
    /// A transport-level failure (connection, DNS, TLS); carries the
    /// transport's own message.
    RequestError(String),
    /// A transport error that the HTTP client attributes to a status
    /// condition.
    BadStatus,
    /// A success response whose body is not JSON.
    ResponseIsNotJson,
    /// Schema validation failed; carries the full violation report.
    BadResponse(String),
    /// A listing response that parses as JSON but does not have the
    /// expected nested shape.
    MalformedResponseShape(ShapeError),
    /// The schema document could not be compiled; carries the compiler's
    /// message.
    SchemaCompileFailed(String),
    /// A string that was expected to be a URL does not parse as one;
    /// carries that string.
    InvalidUrl(String),
}

} // verus!
