use soracom_sdk::json::parse_json;
use soracom_sdk::json::Json;

fn parse_str(s: &str) -> Option<Json> {
    parse_json(s.as_bytes())
}

#[test]
fn scalars_parse() {
    assert!(matches!(parse_str("null"), Some(Json::Null)));
    assert!(matches!(parse_str("true"), Some(Json::Bool(true))));
    assert!(matches!(parse_str("false"), Some(Json::Bool(false))));
    assert!(matches!(parse_str("42"), Some(Json::Int(42))));
    assert!(matches!(parse_str("-7"), Some(Json::Int(-7))));
    assert!(matches!(parse_str("0"), Some(Json::Int(0))));
}

#[test]
fn strings_parse_to_raw_bytes() {
    match parse_str("\"hello\"") {
        Some(Json::Str(b)) => assert_eq!(b, "hello".as_bytes().to_vec()),
        other => panic!("unexpected parse: {:?}", other.is_some()),
    }
}

#[test]
fn arrays_and_objects_nest() {
    match parse_str(" [ 1 , [ true , null ] , { \"k\" : \"v\" } ] ") {
        Some(Json::Arr(items)) => {
            assert_eq!(items.len(), 3);
            assert!(matches!(items[0], Json::Int(1)));
            match &items[1] {
                Json::Arr(inner) => assert_eq!(inner.len(), 2),
                _ => panic!("expected a nested array"),
            }
            match &items[2] {
                Json::Obj(ms) => {
                    assert_eq!(ms.len(), 1);
                    assert_eq!(ms[0].0, "k".as_bytes().to_vec());
                },
                _ => panic!("expected a nested object"),
            }
        },
        _ => panic!("expected an array"),
    }
}

#[test]
fn i64_bounds_parse_and_overflow_fails() {
    assert!(matches!(
        parse_str("9223372036854775807"),
        Some(Json::Int(9223372036854775807))
    ));
    assert!(matches!(
        parse_str("-9223372036854775808"),
        Some(Json::Int(-9223372036854775808))
    ));
    assert!(parse_str("9223372036854775808").is_none());
    assert!(parse_str("123456789012345678901234567890").is_none());
    assert!(parse_str("-9223372036854775809").is_none());
}

#[test]
fn leading_zeros_read_as_value() {
    assert!(matches!(parse_str("01"), Some(Json::Int(1))));
    assert!(matches!(parse_str("-0"), Some(Json::Int(0))));
    assert!(parse_str("1.5").is_none());
    assert!(parse_str("1e3").is_none());
}

#[test]
fn malformed_documents_fail() {
    assert!(parse_str("").is_none());
    assert!(parse_str("[1,]").is_none());
    assert!(parse_str("{\"a\":}").is_none());
    assert!(parse_str("\"unterminated").is_none());
    assert!(parse_str("nul").is_none());
    assert!(parse_str("1 2").is_none());
    assert!(parse_str("-").is_none());
}

#[test]
fn simple_escapes_are_resolved() {
    match parse_str("\"a\\nb\"") {
        Some(Json::Str(b)) => assert_eq!(b, b"a\nb".to_vec()),
        _ => panic!("expected a string"),
    }
    match parse_str("\"\\\"\\\\\\/\\b\\f\\n\\r\\t\"") {
        Some(Json::Str(b)) => assert_eq!(b, b"\"\\/\x08\x0c\n\r\t".to_vec()),
        _ => panic!("expected a string"),
    }
}

#[test]
fn unicode_escapes_are_resolved() {
    match parse_str("\"\\u0041\\u00e9\\u20AC\"") {
        Some(Json::Str(b)) => assert_eq!(b, "A\u{e9}\u{20ac}".as_bytes().to_vec()),
        _ => panic!("expected a string"),
    }
}

#[test]
fn bad_escapes_fail() {
    assert!(parse_str("\"\\x\"").is_none());
    assert!(parse_str("\"\\u12\"").is_none());
    assert!(parse_str("\"\\u12g4\"").is_none());
    assert!(parse_str("\"\\ud800\"").is_none());
    assert!(parse_str("\"\\uDEAD\"").is_none());
    assert!(parse_str("\"\\\"").is_none());
    assert!(parse_str("\"\x01\"").is_none());
}

#[test]
fn empty_containers_parse() {
    assert!(matches!(parse_str("[]"), Some(Json::Arr(v)) if v.is_empty()));
    assert!(matches!(parse_str("{}"), Some(Json::Obj(m)) if m.is_empty()));
    assert!(matches!(parse_str(" { } "), Some(Json::Obj(m)) if m.is_empty()));
}

#[test]
fn utf8_string_contents_survive() {
    match parse_str("{\"name\":\"\u{00e9}t\u{00e9}\"}") {
        Some(Json::Obj(ms)) => {
            assert_eq!(ms[0].1, Json::Str("\u{00e9}t\u{00e9}".as_bytes().to_vec()));
        },
        _ => panic!("expected an object"),
    }
}
