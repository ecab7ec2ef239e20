use beacon_probe::errors::{ShapeError, VerifierError};
use beacon_probe::extract::{extract_ids, ids_from_probe};
use beacon_probe::json::JsonValue;
use beacon_probe::probe::{ping_outcome, FetchOutcome};
use beacon_probe::urls::parse_url;

fn probe_document(body: &str) -> JsonValue {
    let url = parse_url("https://example.org/biosamples").unwrap();
    let get = FetchOutcome::Response { status: 200, body: String::from(body) };
    ping_outcome(&url, get, None).unwrap()
}

#[test]
fn extraction_reads_ids_with_fallbacks_in_order() {
    let doc = probe_document(
        "{\"response\":{\"resultSets\":[{\"results\":[{\"id\":\"a\"},{\"variantInternalId\":\"b\"}]}]}}",
    );
    let ids = extract_ids(&doc).unwrap();
    assert_eq!(ids, vec![String::from("a"), String::from("b")]);
}

#[test]
fn extraction_concatenates_result_sets_in_order() {
    let doc = probe_document(
        "{\"response\":{\"resultSets\":[\
         {\"results\":[{\"id\":\"a\"}]},\
         {\"results\":[{\"cohortId\":\"c\"},{\"id\":\"d\"}]}\
         ]}}",
    );
    let ids = extract_ids(&doc).unwrap();
    assert_eq!(ids, vec![String::from("a"), String::from("c"), String::from("d")]);
}

#[test]
fn a_non_string_id_falls_through_to_the_next_candidate() {
    let doc = probe_document(
        "{\"response\":{\"resultSets\":[{\"results\":[{\"id\":5,\"cohortId\":\"c\"}]}]}}",
    );
    let ids = extract_ids(&doc).unwrap();
    assert_eq!(ids, vec![String::from("c")]);
}

#[test]
fn empty_result_sets_yield_no_ids() {
    let doc = probe_document("{\"response\":{\"resultSets\":[]}}");
    assert_eq!(extract_ids(&doc).unwrap(), Vec::<String>::new());
}

#[test]
fn a_missing_result_sets_member_is_a_shape_error() {
    let doc = probe_document("{\"response\":{\"collections\":[]}}");
    assert_eq!(
        extract_ids(&doc),
        Err(VerifierError::MalformedResponseShape(ShapeError::MissingResultSets))
    );
}

#[test]
fn a_non_array_results_member_is_a_shape_error() {
    let doc = probe_document("{\"response\":{\"resultSets\":[{\"results\":{}}]}}");
    assert_eq!(
        extract_ids(&doc),
        Err(VerifierError::MalformedResponseShape(ShapeError::ResultsNotAnArray))
    );
}

#[test]
fn a_record_without_any_identifier_is_a_shape_error() {
    let doc = probe_document(
        "{\"response\":{\"resultSets\":[{\"results\":[{\"id\":\"a\"},{\"name\":\"no id\"}]}]}}",
    );
    assert_eq!(
        extract_ids(&doc),
        Err(VerifierError::MalformedResponseShape(ShapeError::MissingIdentifier))
    );
}

#[test]
fn a_non_object_document_is_a_shape_error() {
    let doc = probe_document("[1, 2, 3]");
    assert_eq!(
        extract_ids(&doc),
        Err(VerifierError::MalformedResponseShape(ShapeError::NotAnObject))
    );
}

#[test]
fn a_failed_probe_yields_no_ids() {
    let ids = ids_from_probe(Err(VerifierError::BadStatus)).unwrap();
    assert_eq!(ids, Vec::<String>::new());
}

#[test]
fn a_successful_probe_hands_its_document_to_extraction() {
    let doc = probe_document("{\"response\":{\"resultSets\":[{\"results\":[{\"id\":\"x\"}]}]}}");
    let ids = ids_from_probe(Ok(doc)).unwrap();
    assert_eq!(ids, vec![String::from("x")]);
}
