use llm_proxy::json::{parse_json, print_json, Json, JsonNumber, Object};

fn json(text: &str) -> Json {
    parse_json(text.as_bytes()).unwrap()
}

#[test]
fn prints_what_it_parsed() {
    for text in [
        "null",
        "true",
        "0",
        "18446744073709551615",
        "-9223372036854775808",
        "0.1",
        "1e+300",
        "\"a\\nb\\u0001\"",
        "[]",
        "[1,[2,{\"a\":null}]]",
        "{\"a\":1,\"b\":{\"c\":\"d\"}}",
    ] {
        let printed = print_json(&json(text));
        let again = print_json(&json(&printed));
        assert_eq!(printed, again);
        let left: serde_json::Value = serde_json::from_str(text).unwrap();
        let right: serde_json::Value = serde_json::from_str(&printed).unwrap();
        assert_eq!(left, right);
    }
}

#[test]
fn reports_the_parser_message() {
    let expected = serde_json::from_str::<serde_json::Value>("{\"a\" 1}")
        .unwrap_err()
        .to_string();
    match parse_json(b"{\"a\" 1}") {
        Err(message) => assert_eq!(message, expected),
        Ok(_) => panic!("parsed"),
    }
    assert!(parse_json(b"").is_err());
    assert!(parse_json(&[0xff]).is_err());
}

#[test]
fn nesting_is_limited() {
    let deep = "[".repeat(127) + &"]".repeat(127);
    assert_eq!(print_json(&json(&deep)), deep);
    let too_deep = "[".repeat(128) + &"]".repeat(128);
    assert!(parse_json(too_deep.as_bytes()).is_err());
}

#[test]
fn later_entries_replace_earlier_ones() {
    let v = json("{\"a\":1,\"a\":2}");
    assert_eq!(v.get("a").unwrap().as_u64(), Some(2));
    let mut o = Object::new();
    o.set("k", Json::string("x"));
    o.set("k", Json::Bool(true));
    o.set("l", Json::Null);
    assert_eq!(print_json(&Json::Object(o)), "{\"k\":true,\"l\":null}");
}

#[test]
fn reads_entries() {
    let v = json("{\"s\":\"x\",\"n\":7,\"neg\":-1,\"list\":[1,2],\"b\":true}");
    assert_eq!(v.text_at("s"), Some("x"));
    assert_eq!(v.text_at("n"), None);
    assert_eq!(v.text_or("n", "d"), "d");
    assert_eq!(v.count_at("n"), 7);
    assert_eq!(v.count_at("neg"), 0);
    assert_eq!(v.count_at("missing"), 0);
    assert_eq!(v.array_at("list").unwrap().len(), 2);
    assert!(v.array_at("s").is_none());
    assert!(v.has_text("s", "x"));
    assert!(!v.has_text("s", "y"));
    assert_eq!(v.get("b").unwrap().as_bool(), Some(true));
    assert_eq!(v.get("neg").unwrap().as_u64(), None);
    assert_eq!(print_json(&v.field_or("missing", Json::Null)), "null");
    assert!(json("[1]").get("0").is_none());
}

#[test]
fn sets_entries_of_objects_only() {
    let v = json("{\"a\":1}").with_entry("b", Json::empty_list());
    assert_eq!(print_json(&v), "{\"a\":1,\"b\":[]}");
    let w = json("[1]").with_entry("b", Json::empty_object());
    assert_eq!(print_json(&w), "[1]");
}

#[test]
fn numbers_keep_their_kind() {
    assert!(matches!(
        json("5"),
        Json::Number(JsonNumber::Unsigned(5))
    ));
    assert!(matches!(json("-5"), Json::Number(JsonNumber::Signed(-5))));
    assert!(matches!(json("5.0"), Json::Number(JsonNumber::Fraction(_))));
    assert_eq!(print_json(&json("5.0").clone()), "5.0");
}
