//! An endpoint-probing and schema-validation engine for JSON data
//! services.
//!
//! The library composes endpoint URLs from a root and a relative URL
//! with `{name}` template substitution ([`urls`]), classifies the
//! outcome of probing an endpoint with a GET and the one permitted POST
//! fallback ([`probe`]), extracts record identifiers from the nested
//! listing shape `response.resultSets[].results[]` ([`extract`]), and
//! validates JSON documents against a compiled JSON Schema, collecting
//! every violation ([`schema`]).
//!
//! Every function here is verified against its contract. The HTTP
//! requests themselves live with the caller, which hands their plain
//! outcomes (status codes, body text) to the library; parsing URLs and
//! JSON and compiling and running schemas are calls into the url,
//! serde_json and jsonschema crates behind the few trusted wrappers
//! that state what those calls return.

pub mod errors;
pub mod extract;
pub mod json;
pub mod probe;
pub mod schema;
pub mod strings;
pub mod urls;
