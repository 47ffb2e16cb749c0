use llm_proxy::json::{parse_json, print_json, Json};
use llm_proxy::transform::chat_anthropic::{
    request_anthropic_to_chat, request_chat_to_anthropic, response_anthropic_to_chat,
    response_anthropic_to_chat_with, response_chat_to_anthropic, response_chat_to_anthropic_with,
};
use serde_json::Value;

fn json(text: &str) -> Json {
    parse_json(text.as_bytes()).unwrap()
}

fn shown(value: &Json) -> Value {
    serde_json::from_str(&print_json(value)).unwrap()
}

fn value(text: &str) -> Value {
    serde_json::from_str(text).unwrap()
}

#[test]
fn test_request_chat_to_anthropic_simple() {
    let body = json(
        r#"{
            "model": "messages-3", "max_tokens": 1024,
            "messages": [{"role": "system", "content": "Be helpful"}, {"role": "user", "content": "Hello"}]
        }"#,
    );
    let result = shown(&request_chat_to_anthropic(&body).unwrap());
    assert_eq!(result["model"], "messages-3");
    assert_eq!(result["system"], "Be helpful");
    let msgs = result["messages"].as_array().unwrap();
    assert_eq!(msgs[0]["role"], "user");
}

#[test]
fn test_request_anthropic_to_chat_simple() {
    let body = json(
        r#"{
            "model": "messages-3", "system": "Be helpful", "max_tokens": 1024,
            "messages": [{"role": "user", "content": "Hello"}]
        }"#,
    );
    let result = shown(&request_anthropic_to_chat(&body).unwrap());
    assert_eq!(result["model"], "messages-3");
    let msgs = result["messages"].as_array().unwrap();
    assert_eq!(msgs[0]["role"], "system");
    assert_eq!(msgs[1]["role"], "user");
}

#[test]
fn test_response_anthropic_to_chat() {
    let anthro = json(
        r#"{
            "model": "messages-3",
            "content": [{"type": "text", "text": "Hello!"}],
            "usage": {"input_tokens": 10, "output_tokens": 5},
            "stop_reason": "end_turn"
        }"#,
    );
    let result = shown(&response_anthropic_to_chat(&anthro, None).unwrap());
    assert_eq!(result["object"], "chat.completion");
    let choices = result["choices"].as_array().unwrap();
    assert_eq!(choices[0]["message"]["content"], "Hello!");
}

#[test]
fn test_response_chat_to_anthropic() {
    let chat = json(
        r#"{
            "model": "messages-3",
            "choices": [{"message": {"role": "assistant", "content": "Hi!"}}],
            "usage": {"prompt_tokens": 10, "completion_tokens": 5, "total_tokens": 15}
        }"#,
    );
    let result = shown(&response_chat_to_anthropic(&chat, None).unwrap());
    assert_eq!(result["type"], "message");
    assert_eq!(result["role"], "assistant");
    assert_eq!(result["stop_reason"], "end_turn");
}

#[test]
fn chat_request_to_anthropic_exactly() {
    let body = json(
        r#"{"model":"m","max_tokens":1,"max_completion_tokens":2,"temperature":0,"messages":[
            {"role":"system","content":"a"},
            {"role":"system","content":["not text"]},
            {"role":"system","content":"b"},
            {"content":"q"},
            {"role":"user","content":[{"type":"image"}]},
            {"role":"user"},
            {"role":"assistant","content":"","tool_calls":[{"id":"c","function":{"name":"f","arguments":"{\"k\":1}"}},{"function":{"arguments":"bad"}}]},
            {"role":"assistant","content":"said"},
            {"role":"assistant"},
            {"role":"tool","tool_call_id":"c","content":"out"},
            {"role":"other","content":"dropped"}
        ],"tools":[{"type":"function","function":{"name":"f","parameters":{"s":1}}},{"type":"function"},{"type":"x"}]}"#,
    );
    assert_eq!(
        shown(&request_chat_to_anthropic(&body).unwrap()),
        value(
            r#"{"model":"m","max_tokens":2,"temperature":0,"system":"a\nb","messages":[
            {"role":"user","content":[{"type":"text","text":"q"}]},
            {"role":"user","content":[{"type":"image"}]},
            {"role":"user","content":[{"type":"text","text":""}]},
            {"role":"assistant","content":[
                {"type":"tool_use","id":"c","name":"f","input":{"k":1}},
                {"type":"tool_use","id":"","name":"","input":{}}]},
            {"role":"assistant","content":[{"type":"text","text":"said"}]},
            {"role":"user","content":[{"type":"tool_result","tool_use_id":"c","content":"out"}]}
        ],"tools":[{"name":"f","description":"","input_schema":{"s":1}},{"name":"","description":"","input_schema":{}}]}"#
        )
    );
    assert_eq!(
        shown(&request_chat_to_anthropic(&json("{}")).unwrap()),
        value(r#"{"max_tokens":4096,"messages":[]}"#)
    );
}

#[test]
fn anthropic_request_to_chat_exactly() {
    let body = json(
        r#"{"model":"m","system":"s","stream":true,"messages":[
            {"role":"assistant","content":"said"},
            {"role":"assistant","content":[{"type":"tool_use","id":"c","name":"f","input":{"k":1}}]},
            {"role":"user","content":[{"type":"text","text":"a"},{"type":"text","text":"b"},{"type":"tool_result","tool_use_id":"c","content":"out"},{"type":"x"}]},
            {"role":"user","content":[]},
            {"role":"user","content":5}
        ],"tools":[{"name":"f","description":"d","input_schema":{"s":1}}]}"#,
    );
    assert_eq!(
        shown(&request_anthropic_to_chat(&body).unwrap()),
        value(
            r#"{"model":"m","stream":true,"messages":[
            {"role":"system","content":"s"},
            {"role":"assistant","content":"said"},
            {"role":"assistant","tool_calls":[{"id":"c","type":"function","function":{"name":"f","arguments":"{\"k\":1}"}}]},
            {"role":"user","content":"ab"},
            {"role":"tool","tool_call_id":"c","content":"out"},
            {"role":"user","content":""}
        ],"tools":[{"type":"function","function":{"name":"f","description":"d","parameters":{"s":1}}}]}"#
        )
    );
}

#[test]
fn anthropic_response_to_chat_exactly() {
    let message = json(
        r#"{"model":"up","content":[{"type":"text","text":"a"},{"type":"tool_use","id":"c","name":"f"},{"type":"text","text":"b"}],
            "usage":{"input_tokens":2,"output_tokens":3}}"#,
    );
    assert_eq!(
        shown(&response_anthropic_to_chat_with(&message, None, "id", 5)),
        value(
            r#"{"id":"id","object":"chat.completion","created":5,"model":"up","choices":[{"index":0,"message":{
            "role":"assistant","content":"ab","tool_calls":[{"id":"c","type":"function","function":{"name":"f","arguments":"{}"}}]},
            "finish_reason":"tool_calls"}],
            "usage":{"prompt_tokens":2,"completion_tokens":3,"total_tokens":5}}"#
        )
    );
    let empty = shown(&response_anthropic_to_chat(&json("{}"), Some("m")).unwrap());
    assert_eq!(empty["choices"][0]["finish_reason"], "stop");
    assert_eq!(empty["model"], "m");
    assert!(empty["id"].as_str().unwrap().starts_with("chatcmpl_"));
}

#[test]
fn chat_response_to_anthropic_exactly() {
    let chat = json(
        r#"{"model":"up","choices":[{"message":{"content":"t","tool_calls":[{"id":"c","function":{"name":"f","arguments":"[]"}}]}}],
            "usage":{"prompt_tokens":2}}"#,
    );
    assert_eq!(
        shown(&response_chat_to_anthropic_with(&chat, Some("mine"), "id").unwrap()),
        value(
            r#"{"id":"id","type":"message","role":"assistant","model":"mine","content":[
            {"type":"text","text":"t"},{"type":"tool_use","id":"c","name":"f","input":[]}],
            "stop_reason":"tool_use","usage":{"input_tokens":2,"output_tokens":0}}"#
        )
    );
    assert!(response_chat_to_anthropic(&json(r#"{"choices":[]}"#), None).is_none());
    let fresh = shown(
        &response_chat_to_anthropic(&json(r#"{"choices":[{"message":{}}]}"#), None).unwrap(),
    );
    assert!(fresh["id"].as_str().unwrap().starts_with("msg_"));
}

#[test]
fn chat_text_and_calls_come_back() {
    let chat = json(
        r#"{"choices":[{"message":{"content":"there and back","tool_calls":[
            {"id":"c","type":"function","function":{"name":"f","arguments":"{ \"k\" : 1 }"}}]}}]}"#,
    );
    let there = response_chat_to_anthropic(&chat, None).unwrap();
    let back = shown(&response_anthropic_to_chat(&there, None).unwrap());
    let message = &back["choices"][0]["message"];
    assert_eq!(message["content"], "there and back");
    assert_eq!(message["tool_calls"][0]["id"], "c");
    assert_eq!(message["tool_calls"][0]["function"]["name"], "f");
    assert_eq!(
        message["tool_calls"][0]["function"]["arguments"],
        "{\"k\":1}"
    );
}

#[test]
fn tool_declarations_come_back() {
    let chat = json(
        r#"{"tools":[{"type":"function","function":{"name":"f","description":"d","parameters":{"a":[1]}}}]}"#,
    );
    let there = request_chat_to_anthropic(&chat).unwrap();
    let back = shown(&request_anthropic_to_chat(&there).unwrap());
    assert_eq!(back["tools"], shown(&chat)["tools"]);
}
