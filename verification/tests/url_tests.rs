use beacon_probe::errors::VerifierError;
use beacon_probe::urls::{parse_url, replace_vars, url_join};

#[test]
fn test_replace_vars() {
    let replaced = replace_vars(
        &parse_url("https://google.com/biosamples/{id}").unwrap(),
        &vec![(String::from("id"), String::from("my_id"))],
    )
    .unwrap();
    assert_eq!(replaced.to_url_string(), "https://google.com/biosamples/my_id");
}

#[test]
fn parse_fills_every_component() {
    let u = parse_url("https://user:pw@example.org:8443/api/v2?token=1#top").unwrap();
    assert_eq!(u.scheme, "https");
    assert_eq!(u.authority, "user:pw@example.org:8443");
    assert_eq!(u.host, "example.org");
    assert_eq!(u.path, "/api/v2");
    assert_eq!(u.query.as_deref(), Some("token=1"));
    assert_eq!(u.fragment.as_deref(), Some("top"));
    assert_eq!(u.to_url_string(), "https://user:pw@example.org:8443/api/v2?token=1#top");
}

#[test]
fn parse_normalizes_an_empty_path() {
    let u = parse_url("https://example.org").unwrap();
    assert_eq!(u.path, "/");
    assert_eq!(u.to_url_string(), "https://example.org/");
}

#[test]
fn parse_percent_encodes_placeholders() {
    let u = parse_url("https://example.org/items/{id}").unwrap();
    assert_eq!(u.path, "/items/%7Bid%7D");
}

#[test]
fn parse_rejects_a_non_url() {
    match parse_url("not a url at all") {
        Err(VerifierError::InvalidUrl(s)) => assert_eq!(s, "not a url at all"),
        other => panic!("expected InvalidUrl, got {:?}", other),
    }
}

#[test]
fn join_keeps_scheme_host_and_query() {
    let root = parse_url("https://example.org/api?token=1").unwrap();
    let rel = parse_url("https://beacon.example/biosamples/all").unwrap();
    let joined = url_join(&root, &rel);
    assert_eq!(joined.scheme, "https");
    assert_eq!(joined.host, "example.org");
    assert_eq!(joined.authority, "example.org");
    assert_eq!(joined.path, "/api/biosamples/all");
    assert_eq!(joined.query.as_deref(), Some("token=1"));
    assert_eq!(joined.to_url_string(), "https://example.org/api/biosamples/all?token=1");
}

#[test]
fn join_onto_a_root_path() {
    let root = parse_url("https://example.org").unwrap();
    let rel = parse_url("https://x.example/g_variants").unwrap();
    let joined = url_join(&root, &rel);
    assert_eq!(joined.path, "/g_variants");
}

#[test]
fn join_drops_the_roots_trailing_slash() {
    let root = parse_url("https://example.org/api/").unwrap();
    let rel = parse_url("https://x.example/cohorts").unwrap();
    let joined = url_join(&root, &rel);
    assert_eq!(joined.path, "/api/cohorts");
}

#[test]
fn substitute_with_no_bindings_is_identity() {
    let u = parse_url("https://example.org/items/{id}?q=1").unwrap();
    let r = replace_vars(&u, &Vec::new()).unwrap();
    assert_eq!(r, u);
}

#[test]
fn substitute_with_unmatched_bindings_is_identity() {
    let u = parse_url("https://example.org/items/{id}").unwrap();
    let r = replace_vars(&u, &vec![(String::from("name"), String::from("x"))]).unwrap();
    assert_eq!(r, u);
}

#[test]
fn substitute_replaces_every_occurrence() {
    let u = parse_url("https://example.org/{id}/links/{id}").unwrap();
    let r = replace_vars(&u, &vec![(String::from("id"), String::from("42"))]).unwrap();
    assert_eq!(r.to_url_string(), "https://example.org/42/links/42");
}

#[test]
fn substitutions_are_cumulative() {
    let u = parse_url("https://example.org/{entity}/{id}").unwrap();
    let r = replace_vars(
        &u,
        &vec![
            (String::from("entity"), String::from("biosamples")),
            (String::from("id"), String::from("b-7")),
        ],
    )
    .unwrap();
    assert_eq!(r.to_url_string(), "https://example.org/biosamples/b-7");
}
