use mcp_client::json::{parse_json_text, to_json_text, JsonValue};

fn obj(entries: Vec<(&str, JsonValue)>) -> JsonValue {
    JsonValue::Obj(entries.into_iter().map(|(k, v)| (k.to_string(), v)).collect())
}

#[test]
fn renders_scalars() {
    assert_eq!(to_json_text(&JsonValue::Null), "null");
    assert_eq!(to_json_text(&JsonValue::Bool(true)), "true");
    assert_eq!(to_json_text(&JsonValue::Bool(false)), "false");
    assert_eq!(to_json_text(&JsonValue::Int(0)), "0");
    assert_eq!(to_json_text(&JsonValue::Int(42)), "42");
    assert_eq!(to_json_text(&JsonValue::Int(-7)), "-7");
    assert_eq!(to_json_text(&JsonValue::Int(i64::MAX)), "9223372036854775807");
    assert_eq!(to_json_text(&JsonValue::Int(i64::MIN)), "-9223372036854775808");
}

#[test]
fn renders_strings_with_escapes() {
    assert_eq!(to_json_text(&JsonValue::Str("hi".to_string())), "\"hi\"");
    assert_eq!(
        to_json_text(&JsonValue::Str("a\"b\\c\nd\re\tf".to_string())),
        "\"a\\\"b\\\\c\\nd\\re\\tf\""
    );
    assert_eq!(to_json_text(&JsonValue::Str("\u{0001}".to_string())), "\"\\u0001\"");
    assert_eq!(to_json_text(&JsonValue::Str("\u{001f}".to_string())), "\"\\u001f\"");
}

#[test]
fn renders_arrays_and_objects() {
    let v = JsonValue::Arr(vec![JsonValue::Int(1), JsonValue::Int(2), JsonValue::Null]);
    assert_eq!(to_json_text(&v), "[1,2,null]");
    let o = obj(vec![
        ("a", JsonValue::Int(1)),
        ("b", JsonValue::Arr(vec![JsonValue::Bool(true)])),
    ]);
    assert_eq!(to_json_text(&o), "{\"a\":1,\"b\":[true]}");
    assert_eq!(to_json_text(&JsonValue::Arr(vec![])), "[]");
    assert_eq!(to_json_text(&obj(vec![])), "{}");
}

#[test]
fn parses_scalars() {
    assert_eq!(parse_json_text("null"), Some(JsonValue::Null));
    assert_eq!(parse_json_text("true"), Some(JsonValue::Bool(true)));
    assert_eq!(parse_json_text("false"), Some(JsonValue::Bool(false)));
    assert_eq!(parse_json_text("42"), Some(JsonValue::Int(42)));
    assert_eq!(parse_json_text("-42"), Some(JsonValue::Int(-42)));
    assert_eq!(parse_json_text("0"), Some(JsonValue::Int(0)));
    assert_eq!(
        parse_json_text("9223372036854775807"),
        Some(JsonValue::Int(i64::MAX))
    );
    assert_eq!(
        parse_json_text("-9223372036854775808"),
        Some(JsonValue::Int(i64::MIN))
    );
}

#[test]
fn parses_strings_and_escapes() {
    assert_eq!(parse_json_text("\"hi\""), Some(JsonValue::Str("hi".to_string())));
    assert_eq!(
        parse_json_text("\"a\\\"b\\\\c\\nd\\re\\tf\\/g\\bh\\fi\""),
        Some(JsonValue::Str("a\"b\\c\nd\re\tf/g\u{0008}h\u{000c}i".to_string()))
    );
    assert_eq!(
        parse_json_text("\"\\u0041\\u00e9\""),
        Some(JsonValue::Str("A\u{e9}".to_string()))
    );
}

#[test]
fn parses_nested_with_whitespace() {
    let got = parse_json_text(" { \"a\" : [ 1 , { \"b\" : null } ] , \"c\" : \"x\" } ");
    let want = obj(vec![
        (
            "a",
            JsonValue::Arr(vec![JsonValue::Int(1), obj(vec![("b", JsonValue::Null)])]),
        ),
        ("c", JsonValue::Str("x".to_string())),
    ]);
    assert_eq!(got, Some(want));
}

#[test]
fn rejects_malformed_documents() {
    assert_eq!(parse_json_text(""), None);
    assert_eq!(parse_json_text("   "), None);
    assert_eq!(parse_json_text("{"), None);
    assert_eq!(parse_json_text("[1,]"), None);
    assert_eq!(parse_json_text("{\"a\":}"), None);
    assert_eq!(parse_json_text("nul"), None);
    assert_eq!(parse_json_text("truee"), None);
    assert_eq!(parse_json_text("\"unterminated"), None);
    assert_eq!(parse_json_text("1 2"), None);
    assert_eq!(parse_json_text("{\"a\" 1}"), None);
}

#[test]
fn carries_numbers_outside_the_integer_model_verbatim() {
    for lexeme in [
        "1.5",
        "-0.25",
        "1e3",
        "2E-7",
        "1.25e+10",
        "9223372036854775808",
        "-9223372036854775809",
        "99999999999999999999999",
    ] {
        assert_eq!(
            parse_json_text(lexeme),
            Some(JsonValue::Num(lexeme.to_string())),
            "lexeme {}",
            lexeme
        );
    }
    assert_eq!(to_json_text(&JsonValue::Num("1.5".to_string())), "1.5");
    let doc = parse_json_text("{\"multipleOf\":0.5}").unwrap();
    assert_eq!(to_json_text(&doc), "{\"multipleOf\":0.5}");
}

#[test]
fn rejects_malformed_numbers() {
    assert_eq!(parse_json_text("01"), None);
    assert_eq!(parse_json_text("-"), None);
    assert_eq!(parse_json_text("1."), None);
    assert_eq!(parse_json_text("1e"), None);
    assert_eq!(parse_json_text("1e+"), None);
    assert_eq!(parse_json_text(".5"), None);
}

#[test]
fn rejects_bad_string_contents() {
    assert_eq!(parse_json_text("\"\u{0001}\""), None);
    assert_eq!(parse_json_text("\"\\x\""), None);
    assert_eq!(parse_json_text("\"\\u12\""), None);
}

#[test]
fn decodes_surrogate_pairs_and_rejects_lone_surrogates() {
    assert_eq!(
        parse_json_text("\"\\ud83d\\ude00\""),
        Some(JsonValue::Str("\u{1F600}".to_string()))
    );
    assert_eq!(
        parse_json_text("\"a\\uD83D\\uDE00b\""),
        Some(JsonValue::Str("a\u{1F600}b".to_string()))
    );
    assert_eq!(parse_json_text("\"\\ud800\""), None);
    assert_eq!(parse_json_text("\"\\udc00\""), None);
    assert_eq!(parse_json_text("\"\\ud800\\u0041\""), None);
    assert_eq!(parse_json_text("\"\\ud800x\""), None);
}

#[test]
fn bounds_container_nesting() {
    let deep_ok = format!("{}1{}", "[".repeat(128), "]".repeat(128));
    assert!(parse_json_text(&deep_ok).is_some());
    let too_deep = format!("{}1{}", "[".repeat(129), "]".repeat(129));
    assert_eq!(parse_json_text(&too_deep), None);
}

#[test]
fn keeps_duplicate_object_keys_in_order() {
    let got = parse_json_text("{\"a\":1,\"a\":2}");
    let want = obj(vec![("a", JsonValue::Int(1)), ("a", JsonValue::Int(2))]);
    assert_eq!(got, Some(want));
}

#[test]
fn round_trips_through_text() {
    let v = obj(vec![
        ("name", JsonValue::Str("x\n\"y\"".to_string())),
        ("n", JsonValue::Int(-12)),
        (
            "items",
            JsonValue::Arr(vec![JsonValue::Null, JsonValue::Bool(false), obj(vec![])]),
        ),
    ]);
    let text = to_json_text(&v);
    assert_eq!(parse_json_text(&text), Some(v));
}
