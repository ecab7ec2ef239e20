use beacon_probe::errors::VerifierError;
use beacon_probe::json::JsonValue;
use beacon_probe::probe::{needs_post_retry, ping_outcome, FetchOutcome};
use beacon_probe::urls::parse_url;

fn response(status: u16, body: &str) -> FetchOutcome {
    FetchOutcome::Response { status, body: String::from(body) }
}

#[test]
fn get_success_yields_the_bodys_json() {
    let url = parse_url("https://example.org/info").unwrap();
    let got = ping_outcome(&url, response(200, "{\"count\": 2, \"ok\": true}"), None).unwrap();
    let expected = JsonValue::Object(vec![
        (String::from("count"), JsonValue::Number(String::from("2"))),
        (String::from("ok"), JsonValue::Bool(true)),
    ]);
    assert_eq!(got, expected);
}

#[test]
fn method_not_allowed_falls_back_to_the_posts_json() {
    let url = parse_url("https://example.org/query").unwrap();
    let get = response(405, "");
    assert!(needs_post_retry(&get));
    let got = ping_outcome(&url, get, Some(response(201, "[1, \"two\", null]"))).unwrap();
    let expected = JsonValue::Array(vec![
        JsonValue::Number(String::from("1")),
        JsonValue::Text(String::from("two")),
        JsonValue::Null,
    ]);
    assert_eq!(got, expected);
}

#[test]
fn not_found_is_an_unresponsive_endpoint() {
    let url = parse_url("https://example.org/missing").unwrap();
    match ping_outcome(&url, response(404, "gone"), None) {
        Err(VerifierError::UnresponsiveEndpoint(u)) => assert_eq!(u, url),
        other => panic!("expected UnresponsiveEndpoint, got {:?}", other),
    }
}

#[test]
fn a_non_json_body_is_rejected() {
    let url = parse_url("https://example.org/info").unwrap();
    let r = ping_outcome(&url, response(200, "<html></html>"), None);
    assert_eq!(r, Err(VerifierError::ResponseIsNotJson));
}

#[test]
fn a_failed_post_fallback_is_an_unresponsive_endpoint() {
    let url = parse_url("https://example.org/query").unwrap();
    match ping_outcome(&url, response(405, ""), Some(response(500, "boom"))) {
        Err(VerifierError::UnresponsiveEndpoint(u)) => assert_eq!(u, url),
        other => panic!("expected UnresponsiveEndpoint, got {:?}", other),
    }
}

#[test]
fn a_post_transport_failure_is_an_unresponsive_endpoint() {
    let url = parse_url("https://example.org/query").unwrap();
    let post = FetchOutcome::Transport {
        attributed_to_status: false,
        message: String::from("connection reset"),
    };
    match ping_outcome(&url, response(405, ""), Some(post)) {
        Err(VerifierError::UnresponsiveEndpoint(u)) => assert_eq!(u, url),
        other => panic!("expected UnresponsiveEndpoint, got {:?}", other),
    }
}

#[test]
fn a_get_status_failure_is_bad_status() {
    let url = parse_url("https://example.org/info").unwrap();
    let get = FetchOutcome::Transport {
        attributed_to_status: true,
        message: String::from("status error"),
    };
    assert!(!needs_post_retry(&get));
    assert_eq!(ping_outcome(&url, get, None), Err(VerifierError::BadStatus));
}

#[test]
fn a_get_transport_failure_is_a_request_error() {
    let url = parse_url("https://example.org/info").unwrap();
    let get = FetchOutcome::Transport {
        attributed_to_status: false,
        message: String::from("dns failure"),
    };
    assert_eq!(
        ping_outcome(&url, get, None),
        Err(VerifierError::RequestError(String::from("dns failure")))
    );
}
