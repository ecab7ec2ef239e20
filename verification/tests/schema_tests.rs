use beacon_probe::errors::VerifierError;
use beacon_probe::json::JsonValue;
use beacon_probe::schema::{compile_schema, valid_schema};

fn text(s: &str) -> JsonValue {
    JsonValue::Text(String::from(s))
}

fn object(fields: Vec<(&str, JsonValue)>) -> JsonValue {
    JsonValue::Object(fields.into_iter().map(|(k, v)| (String::from(k), v)).collect())
}

/// A schema requiring the property `x` to be a string.
fn string_x_schema() -> JsonValue {
    object(vec![
        ("type", text("object")),
        ("properties", object(vec![("x", object(vec![("type", text("string"))]))])),
    ])
}

#[test]
fn a_conforming_instance_comes_back_unchanged() {
    let compiled = compile_schema(string_x_schema()).unwrap();
    let instance = object(vec![("x", text("hello"))]);
    let expected = object(vec![("x", text("hello"))]);
    assert_eq!(valid_schema(&compiled, &instance), Ok(expected));
}

#[test]
fn a_violation_is_reported_with_its_instance_path() {
    let compiled = compile_schema(string_x_schema()).unwrap();
    let instance = object(vec![("x", JsonValue::Number(String::from("5")))]);
    match valid_schema(&compiled, &instance) {
        Err(VerifierError::BadResponse(report)) => {
            assert!(report.contains("/x"), "report does not name /x: {}", report);
            assert!(report.contains("string"), "report does not name the type: {}", report);
        },
        other => panic!("expected BadResponse, got {:?}", other),
    }
}

#[test]
fn every_violation_is_collected_not_only_the_first() {
    let schema = object(vec![
        ("type", text("object")),
        (
            "properties",
            object(vec![
                ("x", object(vec![("type", text("string"))])),
                ("y", object(vec![("type", text("number"))])),
            ]),
        ),
    ]);
    let compiled = compile_schema(schema).unwrap();
    let instance = object(vec![("x", JsonValue::Bool(true)), ("y", JsonValue::Null)]);
    match valid_schema(&compiled, &instance) {
        Err(VerifierError::BadResponse(report)) => {
            assert!(report.contains("/x"), "report misses /x: {}", report);
            assert!(report.contains("/y"), "report misses /y: {}", report);
        },
        other => panic!("expected BadResponse, got {:?}", other),
    }
}

#[test]
fn compiling_twice_validates_identically() {
    let c1 = compile_schema(string_x_schema()).unwrap();
    let c2 = compile_schema(string_x_schema()).unwrap();
    let bad = || object(vec![("x", JsonValue::Number(String::from("5")))]);
    let good = || object(vec![("x", text("ok"))]);
    assert_eq!(valid_schema(&c1, &bad()), valid_schema(&c2, &bad()));
    assert_eq!(valid_schema(&c1, &good()), valid_schema(&c2, &good()));
}

#[test]
fn an_invalid_schema_fails_to_compile() {
    let schema = object(vec![("type", JsonValue::Number(String::from("12")))]);
    match compile_schema(schema) {
        Err(VerifierError::SchemaCompileFailed(_)) => {},
        Err(other) => panic!("expected SchemaCompileFailed, got {:?}", other),
        Ok(_) => panic!("expected SchemaCompileFailed, got a compiled schema"),
    }
}

#[test]
fn a_remote_reference_fails_to_compile() {
    let schema = object(vec![("$ref", text("https://example.com/schema.json"))]);
    match compile_schema(schema) {
        Err(VerifierError::SchemaCompileFailed(_)) => {},
        Err(other) => panic!("expected SchemaCompileFailed, got {:?}", other),
        Ok(_) => panic!("expected SchemaCompileFailed, got a compiled schema"),
    }
}

#[test]
fn a_bundled_meta_schema_resolves_offline() {
    let schema = object(vec![
        ("$schema", text("https://json-schema.org/draft/2020-12/schema")),
        ("type", text("string")),
    ]);
    let compiled = compile_schema(schema).unwrap();
    assert!(valid_schema(&compiled, &text("yes")).is_ok());
    assert!(valid_schema(&compiled, &JsonValue::Bool(false)).is_err());
}

#[test]
fn validation_handles_nested_documents() {
    let schema = object(vec![
        ("type", text("object")),
        ("required", JsonValue::Array(vec![text("items")])),
        (
            "properties",
            object(vec![(
                "items",
                object(vec![
                    ("type", text("array")),
                    ("items", object(vec![("type", text("integer"))])),
                ]),
            )]),
        ),
    ]);
    let compiled = compile_schema(schema).unwrap();
    let good = object(vec![(
        "items",
        JsonValue::Array(vec![
            JsonValue::Number(String::from("1")),
            JsonValue::Number(String::from("2")),
        ]),
    )]);
    assert!(valid_schema(&compiled, &good).is_ok());
    let bad = object(vec![("items", JsonValue::Array(vec![text("one")]))]);
    assert!(valid_schema(&compiled, &bad).is_err());
}
