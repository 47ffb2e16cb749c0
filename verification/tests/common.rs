use llm_proxy::json::{parse_json, print_json, Json};
use llm_proxy::transform::common::{
    extract_model_from_json, make_id, now_secs, passthrough_sse_line, read_chunk, read_value,
    rewrite_model_in_response, sse_line, Chunk,
};
use serde_json::Value;

fn json(text: &str) -> Json {
    parse_json(text.as_bytes()).unwrap()
}

#[test]
fn test_make_id_prefix() {
    let id = make_id("msg");
    assert!(id.starts_with("msg_"));
    assert!(id.len() > 24);
}

#[test]
fn test_sse_line_format() {
    let data = json(r#"{"type": "test"}"#);
    let line = sse_line(&data);
    assert!(line.starts_with("data: "));
    assert!(line.ends_with("\n\n"));
}

#[test]
fn test_rewrite_model_in_response() {
    let body = br#"{"model": "upstream-model", "content": "hi"}"#;
    let result = rewrite_model_in_response(body, Some("client-model"));
    let v: Value = serde_json::from_slice(&result).unwrap();
    assert_eq!(v["model"], "client-model");
}

#[test]
fn test_rewrite_model_no_client_model() {
    let body = br#"{"model": "upstream-model"}"#;
    let result = rewrite_model_in_response(body, None);
    assert_eq!(result.as_slice(), body);
}

#[test]
fn test_passthrough_sse_rewrite_model() {
    let line = r#"data: {"model":"upstream","choices":[]}"#;
    let result = passthrough_sse_line(line, Some("client-model")).unwrap();
    assert!(result.contains("client-model"));
    assert!(!result.contains("upstream"));
}

#[test]
fn test_passthrough_sse_done() {
    let line = "data: [DONE]";
    let result = passthrough_sse_line(line, Some("model")).unwrap();
    assert_eq!(result, line);
}

#[test]
fn test_passthrough_sse_no_model() {
    let line = r#"data: {"type":"some_event","delta":"text"}"#;
    let result = passthrough_sse_line(line, Some("model")).unwrap();
    assert_eq!(result, line);
}

#[test]
fn ids_are_hexadecimal_and_different() {
    let a = make_id("chatcmpl");
    let b = make_id("chatcmpl");
    assert_eq!(a.len(), "chatcmpl_".len() + 24);
    assert!(a["chatcmpl_".len()..]
        .chars()
        .all(|c| c.is_ascii_digit() || ('a'..='f').contains(&c)));
    assert_eq!(&a["chatcmpl_".len() + 12.."chatcmpl_".len() + 13], "4");
    assert_ne!(a, b);
}

#[test]
fn time_is_after_the_year_2020() {
    assert!(now_secs() > 1_577_836_800);
}

#[test]
fn sse_line_is_exact() {
    assert_eq!(
        sse_line(&json(r#"{ "a" : [1, "x", null, true] }"#)),
        "data: {\"a\":[1,\"x\",null,true]}\n\n"
    );
}

#[test]
fn response_without_model_stays() {
    for body in ["{\"id\": 1}", "[1, 2]", "no json", "", "3"] {
        assert_eq!(
            rewrite_model_in_response(body.as_bytes(), Some("m")),
            body.as_bytes()
        );
    }
}

#[test]
fn rewritten_response_names_the_client_model() {
    let body = br#"{"model": {"odd": 1}, "n": 1.5}"#;
    let result = rewrite_model_in_response(body, Some("mine"));
    assert_eq!(extract_model_from_json(&result), Some("mine".to_string()));
    let v: Value = serde_json::from_slice(&result).unwrap();
    assert_eq!(v["n"], 1.5);
}

#[test]
fn passthrough_keeps_other_lines() {
    for line in [
        "event: message\n",
        ": comment\n",
        "\n",
        "data: not json\n",
        "data: {\"a\":1}\n",
    ] {
        assert_eq!(passthrough_sse_line(line, Some("m")).unwrap(), line);
    }
    let line = "data: {\"model\":\"a\"}\n";
    assert_eq!(passthrough_sse_line(line, None).unwrap(), line);
    assert_eq!(
        passthrough_sse_line("  data: {\"model\":\"a\"}  \n", Some("b")).unwrap(),
        "data: {\"model\":\"b\"}\n\n"
    );
}

#[test]
fn extracts_only_text_models() {
    assert_eq!(
        extract_model_from_json(br#"{"model":"m"}"#),
        Some("m".to_string())
    );
    assert_eq!(extract_model_from_json(br#"{"model":3}"#), None);
    assert_eq!(extract_model_from_json(br#"["model"]"#), None);
    assert_eq!(extract_model_from_json(b"{"), None);
}

#[test]
fn reads_chunks_of_lines() {
    assert!(matches!(read_chunk("data: [DONE]\n"), Chunk::End));
    assert!(matches!(read_chunk("data:[DONE]\n"), Chunk::Nothing));
    assert!(matches!(read_chunk("data: {\n"), Chunk::Nothing));
    match read_chunk("data:  {\"a\": 2} \r\n") {
        Chunk::Value(v) => assert_eq!(print_json(&v), "{\"a\":2}"),
        _ => panic!("no value"),
    }
    assert!(read_value("data: [DONE]").is_none());
    assert!(read_value("event: x").is_none());
    assert_eq!(
        print_json(&read_value("data: [1]").unwrap()),
        "[1]".to_string()
    );
}
