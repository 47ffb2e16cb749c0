use llm_proxy::log::{extract_model, scope_level};

#[test]
fn test_extract_model_openai() {
    let body = br#"{"model": "glm-latest", "messages": []}"#;
    assert_eq!(extract_model(body), Some("glm-latest".into()));
}

#[test]
fn test_extract_model_anthropic() {
    let body = br#"{"model": "messages-3", "max_tokens": 1024}"#;
    assert_eq!(extract_model(body), Some("messages-3".into()));
}

#[test]
fn test_extract_model_empty() {
    assert_eq!(extract_model(b""), None);
}

#[test]
fn test_extract_model_no_model_field() {
    let body = br#"{"foo": "bar"}"#;
    assert_eq!(extract_model(body), None);
}

#[test]
fn test_extract_model_invalid_json() {
    assert_eq!(extract_model(b"not json"), None);
}

#[test]
fn scopes_bare_levels() {
    assert_eq!(scope_level("debug"), "warn,llm_proxy=debug");
    assert_eq!(scope_level("warn,llm_proxy=debug"), "warn,llm_proxy=debug");
    assert_eq!(scope_level("hyper=trace"), "hyper=trace");
    assert_eq!(scope_level("a,b"), "a,b");
    assert_eq!(scope_level(&scope_level("info")), scope_level("info"));
}
