use beat_saber_map::json::Json;

#[test]
fn parses_scalars() {
    assert_eq!(Json::parse_document("null"), Some(Json::Null));
    assert_eq!(Json::parse_document(" true "), Some(Json::Bool(true)));
    assert_eq!(Json::parse_document("false"), Some(Json::Bool(false)));
    assert_eq!(
        Json::parse_document("-12.5e3"),
        Some(Json::Num("-12.5e3".to_string()))
    );
    assert_eq!(
        Json::parse_document("\"hi\""),
        Some(Json::Str("hi".to_string()))
    );
}

#[test]
fn parses_escapes() {
    // The \u escape really decodes its code point: handing the digits back
    // unchanged would give "0041" instead of "A".
    assert_eq!(
        Json::parse_document(r#""\u0041\n\t\\\"\u00e9""#),
        Some(Json::Str("A\n\t\\\"\u{e9}".to_string()))
    );
}

#[test]
fn rejects_malformed_documents() {
    for bad in [
        "",
        "   ",
        "{",
        "[1,]",
        "{\"a\": }",
        "{\"a\" 1}",
        "nul",
        "01",
        "1.",
        "+1",
        "--1",
        "1e",
        "\"unterminated",
        "\"bad\\q\"",
        "\"lone surrogate \\ud800\"",
        "[1] trailing",
        "{\"a\": 1,}",
    ] {
        assert_eq!(Json::parse_document(bad), None, "should refuse {bad:?}");
    }
}

#[test]
fn accepts_number_grammar() {
    for good in ["0", "-1", "10", "3.25", "-0.5", "1e9", "1E-9", "2.5e+10", "-0"] {
        assert!(
            Json::parse_document(good).is_some(),
            "should accept {good:?}"
        );
    }
}

#[test]
fn pretty_prints_nested_values_two_space_indented() {
    let doc = Json::Obj(vec![
        ("a".to_string(), Json::Arr(vec![Json::Num("1".to_string()), Json::Null])),
        ("b".to_string(), Json::Obj(vec![])),
        ("c".to_string(), Json::Str("x \"y\"".to_string())),
    ]);
    assert_eq!(
        doc.to_pretty(),
        "{\n  \"a\": [\n    1,\n    null\n  ],\n  \"b\": {},\n  \"c\": \"x \\\"y\\\"\"\n}"
    );
}

#[test]
fn parse_inverts_pretty_on_a_document() {
    let text = "{\n  \"k\": [\n    1.5,\n    \"two\",\n    {\n      \"x\": true\n    }\n  ]\n}";
    let doc = Json::parse_document(text).unwrap();
    assert_eq!(doc.to_pretty(), text);
}
